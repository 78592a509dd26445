//! The render loop's state: the position on show and whether the loop
//! still runs, with the rules by which keys and the channel change them.

use crate::channel::{try_recv, Received};
use crate::error::Disconnected;
use crate::position::{Piece, Position};
use std::sync::mpsc::Receiver;
use vstd::prelude::*;
use vstd::string::StringExecFns;

verus! {

/// How long one wait for input lasts, in milliseconds.
pub const POLL_TIMEOUT_MS: u64 = 20;

/// The key that a key event is about, as far as the viewer tells keys apart.
#[derive(Clone, Copy, Debug, PartialEq, Eq, Structural)]
pub enum KeyCode {
    Char(char),
    Other,
}

/// Whether a key went down, is held or came up.
#[derive(Clone, Copy, Debug, PartialEq, Eq, Structural)]
pub enum KeyEventKind {
    Press,
    Repeat,
    Release,
}

/// A key event of the terminal.
#[derive(Clone, Copy, Debug, PartialEq, Eq, Structural)]
pub struct KeyEvent {
    pub code: KeyCode,
    pub kind: KeyEventKind,
}

/// An input event of the terminal.
#[derive(Clone, Copy, Debug, PartialEq, Eq, Structural)]
pub enum Event {
    Key(KeyEvent),
    Other,
}

/// Whether a key event asks to quit: it names the key `q`.
pub open spec fn is_quit_key(key_event: KeyEvent) -> bool {
    key_event.code == KeyCode::Char('q')
}

/// Whether the outcome of one wait for input asks to quit: a press of `q`.
pub open spec fn asks_to_quit(event: Option<Event>) -> bool {
    event matches Some(Event::Key(key_event)) && key_event.kind == KeyEventKind::Press
        && is_quit_key(key_event)
}

/// The character of a decimal digit.
pub open spec fn digit_char(d: nat) -> char {
    if d == 0 {
        '0'
    } else if d == 1 {
        '1'
    } else if d == 2 {
        '2'
    } else if d == 3 {
        '3'
    } else if d == 4 {
        '4'
    } else if d == 5 {
        '5'
    } else if d == 6 {
        '6'
    } else if d == 7 {
        '7'
    } else if d == 8 {
        '8'
    } else {
        '9'
    }
}

/// A number written in decimal digits, without leading zeros.
pub open spec fn decimal(n: nat) -> Seq<char>
    decreases n,
{
    if n < 10 {
        seq![digit_char(n)]
    } else {
        decimal(n / 10) + seq![digit_char(n % 10)]
    }
}

/// What stands before the move number in the counter.
pub open spec fn counter_label() -> Seq<char> {
    "Fullmoves: "@
}

/// The digit `d` as a text of one character.
fn digit(d: u32) -> (s: &'static str)
    requires
        d < 10,
    ensures
        s@ == seq![digit_char(d as nat)],
{
    proof {
        reveal_strlit("0");
        reveal_strlit("1");
        reveal_strlit("2");
        reveal_strlit("3");
        reveal_strlit("4");
        reveal_strlit("5");
        reveal_strlit("6");
        reveal_strlit("7");
        reveal_strlit("8");
        reveal_strlit("9");
    }
    let s = if d == 0 {
        "0"
    } else if d == 1 {
        "1"
    } else if d == 2 {
        "2"
    } else if d == 3 {
        "3"
    } else if d == 4 {
        "4"
    } else if d == 5 {
        "5"
    } else if d == 6 {
        "6"
    } else if d == 7 {
        "7"
    } else if d == 8 {
        "8"
    } else {
        "9"
    };
    assert(s@ =~= seq![digit_char(d as nat)]);
    s
}

/// Writes a number in decimal digits.
pub fn to_decimal(n: u32) -> (s: String)
    ensures
        s@ == decimal(n as nat),
    decreases n,
{
    if n < 10 {
        String::from_str(digit(n))
    } else {
        let mut s = to_decimal(n / 10);
        s.append(digit(n % 10));
        s
    }
}

/// The position on show after one look into the channel: a fresh position
/// takes the place of the current one, anything else leaves it.
pub open spec fn shown_after(current: Position, found: Received) -> Position {
    match found {
        Received::Fresh(position) => position,
        _ => current,
    }
}

/// The position on show after a run of looks into the channel, taken in
/// order.
pub open spec fn shown_after_all(current: Position, found: Seq<Received>) -> Position
    decreases found.len(),
{
    if found.len() == 0 {
        current
    } else {
        shown_after(shown_after_all(current, found.drop_last()), found.last())
    }
}

/// The latest position wins: after any run of looks into the channel the
/// position on show is the last one that was found, whatever was shown or
/// found before it.
pub proof fn lemma_latest_wins(current: Position, found: Seq<Received>, last: int)
    requires
        0 <= last < found.len(),
        found[last] is Fresh,
        forall|j: int| last < j < found.len() ==> !(found[j] is Fresh),
    ensures
        shown_after_all(current, found) == found[last]->Fresh_0,
    decreases found.len(),
{
    if last < found.len() - 1 {
        lemma_latest_wins(current, found.drop_last(), last);
    }
}

/// While nothing is found, the position on show stays.
pub proof fn lemma_nothing_found_nothing_changed(current: Position, found: Seq<Received>)
    requires
        forall|j: int| 0 <= j < found.len() ==> !(found[j] is Fresh),
    ensures
        shown_after_all(current, found) == current,
    decreases found.len(),
{
    if found.len() > 0 {
        lemma_nothing_found_nothing_changed(current, found.drop_last());
    }
}

/// The render loop's state.
pub struct App {
    rx: Receiver<Position>,
    data: Position,
    exit: bool,
}

impl App {
    /// The position on show.
    pub closed spec fn shown(self) -> Position {
        self.data
    }

    /// Whether the loop has been told to end.
    pub closed spec fn exited(self) -> bool {
        self.exit
    }

    /// The receiving end that the loop looks into.
    pub closed spec fn receiver(self) -> Receiver<Position> {
        self.rx
    }

    /// A running loop that shows the bare board until the first position
    /// comes out of `rx`.
    pub fn new(rx: Receiver<Position>) -> (app: App)
        ensures
            !app.exited(),
            app.shown()@.squares == Seq::new(64, |i: int| None::<Piece>),
            app.shown()@.fullmoves == 1,
            app.receiver() == rx,
    {
        App { rx, data: Position::empty(), exit: false }
    }

    /// Whether the loop goes on.
    pub fn is_running(&self) -> (running: bool)
        ensures
            running == !self.exited(),
    {
        !self.exit
    }

    /// The position on show.
    pub fn data(&self) -> (position: Position)
        ensures
            position == self.shown(),
    {
        self.data
    }

    /// The move counter as it is written beside the board.
    pub fn counter_text(&self) -> (text: String)
        ensures
            text@ == counter_label() + decimal(self.shown()@.fullmoves),
    {
        let mut text = String::from_str("Fullmoves: ");
        let number = to_decimal(self.data.fullmoves);
        text.append(number.as_str());
        text
    }

    /// Takes the outcome of one wait for input: the press of a key goes to
    /// [`App::handle_key_event`], everything else is passed over.
    pub fn handle_events(&mut self, event: Option<Event>)
        ensures
            final(self).exited() == (old(self).exited() || asks_to_quit(event)),
            final(self).shown() == old(self).shown(),
            final(self).receiver() == old(self).receiver(),
    {
        match event {
            Some(Event::Key(key_event)) => {
                match key_event.kind {
                    KeyEventKind::Press => self.handle_key_event(key_event),
                    _ => {},
                }
            },
            _ => {},
        }
    }

    /// Takes a pressed key: `q` ends the loop, no other key does anything.
    pub fn handle_key_event(&mut self, key_event: KeyEvent)
        ensures
            final(self).exited() == (old(self).exited() || is_quit_key(key_event)),
            final(self).shown() == old(self).shown(),
            final(self).receiver() == old(self).receiver(),
    {
        match key_event.code {
            KeyCode::Char(c) => {
                if c == 'q' {
                    self.exit();
                }
            },
            KeyCode::Other => {},
        }
    }

    /// Takes what one look into the channel found.  A fresh position is
    /// shown from now on; an empty channel changes nothing; a channel
    /// without its sending end is the error.
    pub fn receive(&mut self, found: Received) -> (r: Result<(), Disconnected>)
        ensures
            final(self).shown() == shown_after(old(self).shown(), found),
            final(self).exited() == old(self).exited(),
            final(self).receiver() == old(self).receiver(),
            r is Err <==> found is Disconnected,
    {
        match found {
            Received::Fresh(position) => {
                self.data = position;
                Ok(())
            },
            Received::Empty => Ok(()),
            Received::Disconnected => Err(Disconnected),
        }
    }

    /// Looks into the channel once, without waiting, and takes what is
    /// there as [`App::receive`] says.
    pub fn handle_api_events(&mut self) -> (r: Result<(), Disconnected>)
        ensures
            final(self).exited() == old(self).exited(),
            final(self).receiver() == old(self).receiver(),
            exists|found: Received|
                final(self).shown() == #[trigger] shown_after(old(self).shown(), found) && (r is Err
                    <==> found is Disconnected),
    {
        let found = try_recv(&self.rx);
        self.receive(found)
    }

    /// Ends the loop.
    pub fn exit(&mut self)
        ensures
            final(self).exited(),
            final(self).shown() == old(self).shown(),
            final(self).receiver() == old(self).receiver(),
    {
        self.exit = true;
    }

    /// One turn of the loop after the frame is drawn: first the outcome of
    /// the wait for input, then one look into the channel.  A press of `q`
    /// ends the loop whatever the channel holds.
    pub fn tick(&mut self, event: Option<Event>) -> (r: Result<(), Disconnected>)
        ensures
            final(self).exited() == (old(self).exited() || asks_to_quit(event)),
            final(self).receiver() == old(self).receiver(),
            exists|found: Received|
                final(self).shown() == #[trigger] shown_after(old(self).shown(), found) && (r is Err
                    <==> found is Disconnected),
    {
        self.handle_events(event);
        self.handle_api_events()
    }
}

} // verus!
