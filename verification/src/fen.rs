//! Reading positions out of Forsyth-Edwards notation.
//!
//! The notation itself is read by the `shakmaty` crate.  What this module
//! trusts of it is gathered in the first half; the second half turns a
//! parsed record into a [`Position`] and is verified against that.

use crate::error::DecodeError;
use crate::position::{count_occupied, Color, Piece, Position, PositionView, Role};
use shakmaty::fen::{Fen, ParseFenError};
use vstd::prelude::*;
use vstd::string::StringSliceAdditionalSpecFns;

verus! {

/// `shakmaty::fen::Fen`, a parsed record, carried as an opaque value.
#[verifier::external_type_specification]
#[verifier::external_body]
pub struct ExFen(shakmaty::fen::Fen);

/// `shakmaty::fen::ParseFenError`, carried as an opaque value.
#[verifier::external_type_specification]
#[verifier::external_body]
pub struct ExParseFenError(shakmaty::fen::ParseFenError);

/// The pieces that a parsed record places: from (file, rank) to the
/// piece's role number, 1 for a pawn up to 6 for a king, and whether it
/// is white.
pub uninterp spec fn fen_pieces(fen: Fen) -> Map<(u8, u8), (u8, bool)>;

/// The move number that a parsed record carries.
pub uninterp spec fn fen_move_number(fen: Fen) -> u32;

/// What `Fen::from_ascii` makes of a text: the pieces and the move number
/// of the record it returns, or `None` where it refuses the text.
pub uninterp spec fn fen_reading(text: Seq<u8>) -> Option<(Map<(u8, u8), (u8, bool)>, u32)>;

/// Calls `shakmaty::fen::Fen::from_ascii`.  Claimed: the outcome depends on
/// the text alone, so it is the one named by [`fen_reading`].
#[verifier::external_body]
fn read_fen(text: &[u8]) -> (r: Result<Fen, ParseFenError>)
    ensures
        match r {
            Ok(fen) => fen_reading(text@) == Some((fen_pieces(fen), fen_move_number(fen))),
            Err(_) => fen_reading(text@) is None,
        },
{
    Fen::from_ascii(text)
}

/// Calls `Board::piece_at` on the board of the record, at the square that
/// `Square::from_coords` gives for `file` and `rank`, and hands out the
/// piece as its role number and whether it is white.  Claimed: the answer
/// is the entry of [`fen_pieces`] for that square.  Files and ranks from 8
/// on are left out: `File::new` and `Rank::new` panic on them.
#[verifier::external_body]
fn piece_code_at(fen: &Fen, file: u8, rank: u8) -> (code: Option<(u8, bool)>)
    requires
        file < 8,
        rank < 8,
    ensures
        code == entry(fen_pieces(*fen), file, rank),
{
    let file = shakmaty::File::new(u32::from(file));
    let rank = shakmaty::Rank::new(u32::from(rank));
    let square = shakmaty::Square::from_coords(file, rank);
    fen.as_setup().board.piece_at(square).map(|piece| (u8::from(piece.role), piece.color.is_white()))
}

/// Calls `Fen::as_setup` and reads the field `fullmoves` of the setup.
/// Claimed: it is the number named by [`fen_move_number`].
#[verifier::external_body]
fn move_number(fen: &Fen) -> (n: u32)
    ensures
        n == fen_move_number(*fen),
{
    fen.as_setup().fullmoves.get()
}

/// The entry of a placement for one square.
pub open spec fn entry(pieces: Map<(u8, u8), (u8, bool)>, file: u8, rank: u8) -> Option<(u8, bool)> {
    if pieces.dom().contains((file, rank)) {
        Some(pieces[(file, rank)])
    } else {
        None
    }
}

/// The role that a role number stands for: 1 is the pawn, then knight,
/// bishop, rook and queen; the king is 6, and stands for any other number.
pub open spec fn role_of_code(code: u8) -> Role {
    if code == 1 {
        Role::Pawn
    } else if code == 2 {
        Role::Knight
    } else if code == 3 {
        Role::Bishop
    } else if code == 4 {
        Role::Rook
    } else if code == 5 {
        Role::Queen
    } else {
        Role::King
    }
}

/// The piece that an entry of a placement stands for.
pub open spec fn piece_of_entry(e: Option<(u8, bool)>) -> Option<Piece> {
    match e {
        Some((role, white)) => Some(
            Piece { role: role_of_code(role), color: if white { Color::White } else { Color::Black } },
        ),
        None => None,
    }
}

/// The position that a placement and a move number describe.
pub open spec fn position_of(pieces: Map<(u8, u8), (u8, bool)>, fullmoves: u32) -> PositionView {
    PositionView {
        squares: Seq::new(
            64,
            |i: int| piece_of_entry(entry(pieces, (i % 8) as u8, (i / 8) as u8)),
        ),
        fullmoves: fullmoves as nat,
    }
}

/// The squares of the board on which a placement puts a piece.
pub open spec fn placed(pieces: Map<(u8, u8), (u8, bool)>) -> Set<(u8, u8)> {
    Set::new(|k: (u8, u8)| k.0 < 8 && k.1 < 8 && pieces.dom().contains(k))
}

/// The squares before the `n`-th, counted from a1 rank by rank, on which a
/// placement puts a piece.
spec fn placed_before(pieces: Map<(u8, u8), (u8, bool)>, n: int) -> Set<(u8, u8)> {
    Set::new(|k: (u8, u8)| k.0 < 8 && k.1 < 8 && k.1 * 8 + k.0 < n && pieces.dom().contains(k))
}

/// Among the first `n` squares, as many are occupied as the placement
/// puts pieces on.
proof fn lemma_count_before(pieces: Map<(u8, u8), (u8, bool)>, fullmoves: u32, n: int)
    requires
        0 <= n <= 64,
    ensures
        placed_before(pieces, n).finite(),
        count_occupied(position_of(pieces, fullmoves).squares.take(n)) == placed_before(
            pieces,
            n,
        ).len(),
    decreases n,
{
    let squares = position_of(pieces, fullmoves).squares;
    if n == 0 {
        assert(placed_before(pieces, 0) =~= Set::<(u8, u8)>::empty());
    } else {
        let m = n - 1;
        lemma_count_before(pieces, fullmoves, m);
        let key = ((m % 8) as u8, (m / 8) as u8);
        assert(squares.take(n).drop_last() =~= squares.take(m));
        assert(squares.take(n).last() == piece_of_entry(entry(pieces, key.0, key.1)));
        if pieces.dom().contains(key) {
            assert(placed_before(pieces, n) =~= placed_before(pieces, m).insert(key));
        } else {
            assert(placed_before(pieces, n) =~= placed_before(pieces, m));
        }
    }
}

/// A position read from a record holds the record's pieces and nothing
/// else: as many of its squares are occupied as the record places pieces
/// on the board, and its move number is the record's.
pub proof fn lemma_position_keeps_pieces(pieces: Map<(u8, u8), (u8, bool)>, fullmoves: u32)
    ensures
        placed(pieces).finite(),
        count_occupied(position_of(pieces, fullmoves).squares) == placed(pieces).len(),
        position_of(pieces, fullmoves).fullmoves == fullmoves,
{
    let squares = position_of(pieces, fullmoves).squares;
    lemma_count_before(pieces, fullmoves, 64);
    assert(squares.take(64) =~= squares);
    assert(placed_before(pieces, 64) =~= placed(pieces));
}

/// The role that a role number stands for.
fn to_role(code: u8) -> (role: Role)
    ensures
        role == role_of_code(code),
{
    if code == 1 {
        Role::Pawn
    } else if code == 2 {
        Role::Knight
    } else if code == 3 {
        Role::Bishop
    } else if code == 4 {
        Role::Rook
    } else if code == 5 {
        Role::Queen
    } else {
        Role::King
    }
}

/// The piece that an entry of a placement stands for.
fn to_piece(e: Option<(u8, bool)>) -> (p: Option<Piece>)
    ensures
        p == piece_of_entry(e),
{
    match e {
        Some((role, white)) => Some(
            Piece { role: to_role(role), color: if white { Color::White } else { Color::Black } },
        ),
        None => None,
    }
}

impl Position {
    /// The position that a parsed record describes: every square of the
    /// record is looked up, and the move number is taken over.
    pub fn from_setup(fen: &Fen) -> (p: Position)
        ensures
            p@ == position_of(fen_pieces(*fen), fen_move_number(*fen)),
            count_occupied(p@.squares) == placed(fen_pieces(*fen)).len(),
            p@.fullmoves == fen_move_number(*fen),
    {
        let mut board: [Option<Piece>; 64] = [None; 64];
        let mut rank: u8 = 0;
        while rank < 8
            invariant
                rank <= 8,
                forall|i: int|
                    0 <= i < rank * 8 ==> board@[i] == piece_of_entry(
                        entry(fen_pieces(*fen), (i % 8) as u8, (i / 8) as u8),
                    ),
            decreases 8 - rank,
        {
            let mut file: u8 = 0;
            while file < 8
                invariant
                    rank < 8,
                    file <= 8,
                    forall|i: int|
                        0 <= i < rank * 8 + file ==> board@[i] == piece_of_entry(
                            entry(fen_pieces(*fen), (i % 8) as u8, (i / 8) as u8),
                        ),
                decreases 8 - file,
            {
                let code = piece_code_at(fen, file, rank);
                board[rank as usize * 8 + file as usize] = to_piece(code);
                file = file + 1;
            }
            rank = rank + 1;
        }
        let p = Position::new(board, move_number(fen));
        assert(p@.squares =~= position_of(fen_pieces(*fen), fen_move_number(*fen)).squares);
        proof {
            lemma_position_keeps_pieces(fen_pieces(*fen), fen_move_number(*fen));
        }
        p
    }

    /// Reads a position from its notation.  The text is handed to the
    /// parser as it is; a text that the parser refuses gives the error.
    pub fn from_fen(text: &str) -> (r: Result<Position, DecodeError>)
        ensures
            match fen_reading(text.spec_bytes()) {
                Some((pieces, fullmoves)) => r matches Ok(p) && p@ == position_of(pieces, fullmoves)
                    && count_occupied(p@.squares) == placed(pieces).len() && p@.fullmoves
                    == fullmoves,
                None => r == Err::<Position, DecodeError>(DecodeError::InvalidFen),
            },
    {
        match read_fen(text.as_bytes()) {
            Ok(fen) => Ok(Position::from_setup(&fen)),
            Err(_) => Err(DecodeError::InvalidFen),
        }
    }
}

} // verus!
