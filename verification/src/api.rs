//! The events of the broadcast feed, and the producer that forwards the
//! position in each of them.

use crate::channel::send;
use crate::error::DecodeError;
use crate::fen::{fen_reading, position_of};
use crate::position::{count_occupied, Position, Square};
use std::sync::mpsc::SyncSender;
use vstd::prelude::*;
use vstd::string::StringSliceAdditionalSpecFns;

pub use crate::position::Color;

verus! {

/// The account behind a player.
#[derive(Clone, Debug, PartialEq, Eq)]
pub struct User {
    pub name: String,
    pub title: Option<String>,
    pub flair: Option<String>,
    pub patron: bool,
    pub id: String,
}

/// One of the two players of a featured game.
#[derive(Clone, Debug, PartialEq, Eq)]
pub struct Player {
    pub color: Color,
    pub user: User,
    pub rating: i32,
    pub seconds: i32,
}

/// Sent once when the broadcast switches to a new game.
#[derive(Clone, Debug, PartialEq, Eq)]
pub struct FeaturedData {
    pub id: String,
    pub orientation: Color,
    pub players: [Player; 2],
    pub fen: Position,
}

/// Sent after every move: the new position, the move that led to it and
/// both clocks in seconds.
#[derive(Clone, Debug, PartialEq, Eq)]
pub struct FenData {
    pub fen: Position,
    pub lm: [Square; 2],
    pub wc: i32,
    pub bc: i32,
}

/// One event of the feed.
#[derive(Clone, Debug, PartialEq, Eq)]
pub enum TvData {
    Featured(FeaturedData),
    Fen(FenData),
}

/// The square that a two-byte name stands for: a file letter from `a` to
/// `h`, then a rank digit from `1` to `8`.
pub open spec fn square_named(name: Seq<u8>) -> Option<Square> {
    if name.len() == 2 && 97 <= name[0] <= 104 && 49 <= name[1] <= 56 {
        Some(Square::at(name[0] - 97, name[1] - 49))
    } else {
        None
    }
}

/// The coordinates that a two-byte name stands for.
pub open spec fn coords_named(name: Seq<u8>) -> Option<(u8, u8)> {
    if name.len() == 2 && 97 <= name[0] <= 104 && 49 <= name[1] <= 56 {
        Some(((name[0] - 97) as u8, (name[1] - 49) as u8))
    } else {
        None
    }
}

/// The two squares of a move text: its first four bytes are two square
/// names, origin then destination.  What follows them is not read.
pub open spec fn last_move_of(text: Seq<u8>) -> Option<(Square, Square)> {
    if text.len() >= 4 {
        match (square_named(text.subrange(0, 2)), square_named(text.subrange(2, 4))) {
            (Some(from), Some(to)) => Some((from, to)),
            _ => None,
        }
    } else {
        None
    }
}

/// Two square names in a row, whatever follows them, are read as the move
/// from the first square to the second.
pub proof fn lemma_two_names_are_a_move(from: Seq<u8>, to: Seq<u8>, rest: Seq<u8>)
    requires
        square_named(from) is Some,
        square_named(to) is Some,
    ensures
        last_move_of(from + to + rest) == Some(
            (square_named(from)->Some_0, square_named(to)->Some_0),
        ),
{
    let text = from + to + rest;
    assert(text.subrange(0, 2) =~= from);
    assert(text.subrange(2, 4) =~= to);
}

/// A text of which the first two or the next two bytes do not name a
/// square is no move, and neither is one of fewer than four bytes.
pub proof fn lemma_bad_name_is_no_move(text: Seq<u8>)
    requires
        text.len() < 4 || square_named(text.subrange(0, 2)) is None || square_named(
            text.subrange(2, 4),
        ) is None,
    ensures
        last_move_of(text) is None,
{
}

/// Calls `shakmaty::Square::from_ascii` and hands out the file and rank
/// of the square as numbers.  Claimed: it accepts exactly the names of two
/// bytes made of a letter `a` to `h` and a digit `1` to `8`, and the
/// numbers count from `a` and from `1`.
#[verifier::external_body]
fn square_coords(name: &[u8]) -> (coords: Option<(u8, u8)>)
    ensures
        coords == coords_named(name@),
{
    shakmaty::Square::from_ascii(name).ok().map(|sq| (u8::from(sq.file()), u8::from(sq.rank())))
}

/// The square that a name stands for.
pub fn parse_square(name: &[u8]) -> (sq: Option<Square>)
    ensures
        sq == square_named(name@),
{
    match square_coords(name) {
        Some((file, rank)) => Square::new(file, rank),
        None => None,
    }
}

/// Reads the last move of an update: origin and destination square.
pub fn parse_lm(v: &str) -> (r: Result<[Square; 2], DecodeError>)
    ensures
        match last_move_of(v.spec_bytes()) {
            Some((from, to)) => r matches Ok(lm) && lm@ == seq![from, to],
            None => r == Err::<[Square; 2], DecodeError>(DecodeError::InvalidLastMove),
        },
{
    let bytes = v.as_bytes();
    if bytes.len() < 4 {
        return Err(DecodeError::InvalidLastMove);
    }
    match (parse_square(&bytes[0..2]), parse_square(&bytes[2..4])) {
        (Some(from), Some(to)) => Ok([from, to]),
        _ => Err(DecodeError::InvalidLastMove),
    }
}

impl FenData {
    /// An update from its parts as they stand in the feed: the position in
    /// notation and the last move as text.  The position is read first.
    pub fn parse(fen: &str, lm: &str, wc: i32, bc: i32) -> (r: Result<FenData, DecodeError>)
        ensures
            match (fen_reading(fen.spec_bytes()), last_move_of(lm.spec_bytes())) {
                (Some((pieces, fullmoves)), Some((from, to))) => r matches Ok(d) && d.fen@
                    == position_of(pieces, fullmoves) && d.lm@ == seq![from, to] && d.wc == wc
                    && d.bc == bc,
                (Some(_), None) => r == Err::<FenData, DecodeError>(DecodeError::InvalidLastMove),
                (None, _) => r == Err::<FenData, DecodeError>(DecodeError::InvalidFen),
            },
    {
        let fen = match Position::from_fen(fen) {
            Ok(position) => position,
            Err(e) => {
                return Err(e);
            },
        };
        let lm = match parse_lm(lm) {
            Ok(squares) => squares,
            Err(e) => {
                return Err(e);
            },
        };
        Ok(FenData { fen, lm, wc, bc })
    }
}

impl FeaturedData {
    /// The announcement of a game from its parts as they stand in the
    /// feed: the position in notation, the rest as it is.
    pub fn parse(id: String, orientation: Color, players: [Player; 2], fen: &str) -> (r: Result<
        FeaturedData,
        DecodeError,
    >)
        ensures
            match fen_reading(fen.spec_bytes()) {
                Some((pieces, fullmoves)) => r matches Ok(d) && d.fen@ == position_of(
                    pieces,
                    fullmoves,
                ) && d.id == id && d.orientation == orientation && d.players == players,
                None => r == Err::<FeaturedData, DecodeError>(DecodeError::InvalidFen),
            },
    {
        match Position::from_fen(fen) {
            Ok(position) => Ok(FeaturedData { id, orientation, players, fen: position }),
            Err(e) => Err(e),
        }
    }
}

/// The position that an event carries.
pub open spec fn embedded(event: TvData) -> Position {
    match event {
        TvData::Featured(data) => data.fen,
        TvData::Fen(data) => data.fen,
    }
}

/// The position decoder: takes the position out of an event of either
/// kind.  The other fields are dropped.
pub fn decode(event: TvData) -> (p: Position)
    ensures
        p == embedded(event),
        count_occupied(p@.squares) == count_occupied(embedded(event)@.squares),
        p@.fullmoves == embedded(event)@.fullmoves,
{
    match event {
        TvData::Featured(data) => data.fen,
        TvData::Fen(data) => data.fen,
    }
}

/// Whether the producer goes on reading the feed.
#[derive(Clone, Copy, Debug, PartialEq, Eq, Structural)]
pub enum ProducerState {
    Running,
    /// The render loop is gone: nothing is left to send to.
    Stopped,
}

/// The state of a producer after one send: it runs on while its positions
/// are taken, and stops for good once one is not.
pub fn after_send(delivered: bool) -> (state: ProducerState)
    ensures
        state == if delivered {
            ProducerState::Running
        } else {
            ProducerState::Stopped
        },
{
    if delivered {
        ProducerState::Running
    } else {
        ProducerState::Stopped
    }
}

/// The sending side of the viewer: decodes each event of the feed and
/// hands its position to the render loop, one at a time.
pub struct Producer {
    tx: SyncSender<Position>,
    state: ProducerState,
}

impl Producer {
    /// Whether the producer still runs.
    pub closed spec fn state_of(self) -> ProducerState {
        self.state
    }

    /// The sending end that the producer sends into.
    pub closed spec fn sender(self) -> SyncSender<Position> {
        self.tx
    }

    /// A running producer that sends into `tx`.
    pub fn new(tx: SyncSender<Position>) -> (producer: Producer)
        ensures
            producer.state_of() == ProducerState::Running,
            producer.sender() == tx,
    {
        Producer { tx, state: ProducerState::Running }
    }

    /// Whether the producer still runs.
    pub fn state(&self) -> (state: ProducerState)
        ensures
            state == self.state_of(),
    {
        self.state
    }

    /// Decodes `event` and sends its position, waiting until the render
    /// loop takes it.  A stopped producer sends nothing and stays stopped.
    pub fn forward(&mut self, event: TvData) -> (state: ProducerState)
        ensures
            state == final(self).state_of(),
            old(self).state_of() == ProducerState::Stopped ==> state == ProducerState::Stopped,
            final(self).sender() == old(self).sender(),
    {
        match self.state {
            ProducerState::Running => {
                let position = decode(event);
                let delivered = send(&self.tx, position);
                self.state = after_send(delivered);
            },
            ProducerState::Stopped => {},
        }
        self.state
    }
}

} // verus!
