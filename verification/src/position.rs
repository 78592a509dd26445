//! The board model: colours, roles, pieces, squares and positions.

use vstd::prelude::*;

verus! {

/// The side a piece or a player belongs to.
#[derive(Clone, Copy, Debug, PartialEq, Eq, Structural)]
pub enum Color {
    White,
    Black,
}

/// The six kinds of chess piece.
#[derive(Clone, Copy, Debug, PartialEq, Eq, Structural)]
pub enum Role {
    Pawn,
    Knight,
    Bishop,
    Rook,
    Queen,
    King,
}

/// A piece: a role in a colour.
#[derive(Clone, Copy, Debug, PartialEq, Eq, Structural)]
pub struct Piece {
    pub role: Role,
    pub color: Color,
}

/// A square of the board, by file (`a` is 0) and rank (the first rank is 0).
#[derive(Clone, Copy, Debug, PartialEq, Eq, Structural)]
pub struct Square {
    file: u8,
    rank: u8,
}

impl Square {
    /// Every square is one of the 64 of the board.
    #[verifier::type_invariant]
    spec fn on_board(self) -> bool {
        self.file < 8 && self.rank < 8
    }

    /// The square at `file` and `rank`, both from 0 to 7.
    pub closed spec fn at(file: int, rank: int) -> Square {
        Square { file: file as u8, rank: rank as u8 }
    }

    /// The file, 0 to 7.
    pub closed spec fn file_of(self) -> int {
        self.file as int
    }

    /// The rank, 0 to 7.
    pub closed spec fn rank_of(self) -> int {
        self.rank as int
    }

    /// The place of the square in a position's sequence of squares.
    pub open spec fn index_of(self) -> int {
        self.rank_of() * 8 + self.file_of()
    }

    /// A square is known by its file and rank.
    pub proof fn lemma_at(file: int, rank: int)
        requires
            0 <= file < 8,
            0 <= rank < 8,
        ensures
            Square::at(file, rank).file_of() == file,
            Square::at(file, rank).rank_of() == rank,
    {
    }

    /// The square at `file` and `rank`, if both are on the board.
    pub fn new(file: u8, rank: u8) -> (sq: Option<Square>)
        ensures
            sq == if file < 8 && rank < 8 {
                Some(Square::at(file as int, rank as int))
            } else {
                None
            },
    {
        if file < 8 && rank < 8 {
            Some(Square { file, rank })
        } else {
            None
        }
    }

    /// The file, 0 for `a` to 7 for `h`.
    pub fn file(&self) -> (f: u8)
        ensures
            f == self.file_of(),
            f < 8,
    {
        proof {
            use_type_invariant(self);
        }
        self.file
    }

    /// The rank, 0 for the first to 7 for the eighth.
    pub fn rank(&self) -> (r: u8)
        ensures
            r == self.rank_of(),
            r < 8,
    {
        proof {
            use_type_invariant(self);
        }
        self.rank
    }

    /// The place of the square among the 64, a1 first and h8 last.
    pub fn index(&self) -> (i: usize)
        ensures
            i == self.index_of(),
            i < 64,
    {
        proof {
            use_type_invariant(self);
        }
        self.rank as usize * 8 + self.file as usize
    }
}

/// What a position is, as mathematics: the 64 squares from a1 to h8, rank
/// by rank, each empty or holding a piece, and the move number.
pub struct PositionView {
    pub squares: Seq<Option<Piece>>,
    pub fullmoves: nat,
}

/// How many of the squares hold a piece.
pub open spec fn count_occupied(squares: Seq<Option<Piece>>) -> nat
    decreases squares.len(),
{
    if squares.len() == 0 {
        0
    } else {
        count_occupied(squares.drop_last()) + if squares.last() is Some {
            1nat
        } else {
            0nat
        }
    }
}

/// A board on which no square counts as occupied is bare, and a bare
/// board counts none.
pub proof fn lemma_bare_iff_none_occupied(squares: Seq<Option<Piece>>)
    ensures
        count_occupied(squares) == 0 <==> forall|i: int|
            0 <= i < squares.len() ==> squares[i] is None,
    decreases squares.len(),
{
    if squares.len() > 0 {
        lemma_bare_iff_none_occupied(squares.drop_last());
        if count_occupied(squares) == 0 {
            assert forall|i: int| 0 <= i < squares.len() implies squares[i] is None by {
                if i < squares.len() - 1 {
                    assert(squares.drop_last()[i] == squares[i]);
                }
            }
        }
        if forall|i: int| 0 <= i < squares.len() ==> squares[i] is None {
            assert forall|i: int| 0 <= i < squares.drop_last().len() implies squares.drop_last()[i]
                is None by {
                assert(squares.drop_last()[i] == squares[i]);
            }
        }
    }
}

/// A snapshot of the board: what stands on each square, and the move number.
#[derive(Clone, Copy, Debug, PartialEq, Eq)]
pub struct Position {
    pub board: [Option<Piece>; 64],
    pub fullmoves: u32,
}

impl View for Position {
    type V = PositionView;

    open spec fn view(&self) -> PositionView {
        PositionView { squares: self.board@, fullmoves: self.fullmoves as nat }
    }
}

impl Position {
    /// A position from its squares, a1 first and h8 last, and its move number.
    pub fn new(board: [Option<Piece>; 64], fullmoves: u32) -> (p: Position)
        ensures
            p@.squares == board@,
            p@.fullmoves == fullmoves,
    {
        Position { board, fullmoves }
    }

    /// The bare board at move 1.
    pub fn empty() -> (p: Position)
        ensures
            p@.squares == Seq::new(64, |i: int| None::<Piece>),
            p@.fullmoves == 1,
    {
        let board: [Option<Piece>; 64] = [None; 64];
        Position { board, fullmoves: 1 }
    }

    /// The piece on `square`, if any.
    pub fn piece_at(&self, square: Square) -> (p: Option<Piece>)
        ensures
            p == self@.squares[square.index_of()],
    {
        self.board[square.index()]
    }

    /// The move number.
    pub fn fullmoves(&self) -> (n: u32)
        ensures
            n == self@.fullmoves,
    {
        self.fullmoves
    }

    /// The number of occupied squares.
    pub fn occupied(&self) -> (n: usize)
        ensures
            n == count_occupied(self@.squares),
            n <= 64,
    {
        let mut n: usize = 0;
        let mut i: usize = 0;
        while i < 64
            invariant
                i <= 64,
                n <= i,
                n == count_occupied(self.board@.take(i as int)),
            decreases 64 - i,
        {
            assert(self.board@.take(i + 1).drop_last() == self.board@.take(i as int));
            if self.board[i].is_some() {
                n = n + 1;
            }
            i = i + 1;
        }
        assert(self.board@.take(64) == self.board@);
        n
    }
}

} // verus!
