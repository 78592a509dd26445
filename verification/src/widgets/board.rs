//! The board as it is drawn: 64 tiles of four columns by two rows, each
//! with a background and, where a piece stands, the dots of its glyph.

use crate::position::{
    count_occupied, lemma_bare_iff_none_occupied, Color, Piece, Position, PositionView, Role,
};
use vstd::prelude::*;

verus! {

/// The terminal colours that the board is drawn in.
#[derive(Clone, Copy, Debug, PartialEq, Eq, Structural)]
pub enum TermColor {
    Black,
    White,
    Gray,
    DarkGray,
}

/// Where a widget stands in the room it is given.
#[derive(Clone, Copy, Debug, PartialEq, Eq, Structural)]
pub enum Alignment {
    Left,
    Center,
    Right,
}

/// A rectangle of terminal cells.
#[derive(Clone, Copy, Debug, PartialEq, Eq, Structural)]
pub struct Rect {
    pub x: u16,
    pub y: u16,
    pub width: u16,
    pub height: u16,
}

/// One horizontal stroke of a glyph: in row `row`, the columns from
/// `start` up to, not including, `end`.
#[derive(Clone, Copy, Debug, PartialEq, Eq, Structural)]
pub struct Segment {
    pub row: u8,
    pub start: u8,
    pub end: u8,
}

/// One painted point of a tile's grid of eight by eight dots; `x` counts
/// columns from the left, `y` rows from the top.
#[derive(Clone, Copy, Debug, PartialEq, Eq, Structural)]
pub struct Dot {
    pub x: usize,
    pub y: usize,
    pub color: TermColor,
}

/// How many columns of cells a tile takes.
pub const TILE_WIDTH: u16 = 4;

/// How many rows of cells a tile takes.
pub const TILE_HEIGHT: u16 = 2;

/// The rectangle at `x` and `y` of the given size, cut so that neither its
/// right nor its lower edge passes the last coordinate.
pub open spec fn clamped(x: u16, y: u16, width: u16, height: u16) -> Rect {
    Rect {
        x,
        y,
        width: if x + width > u16::MAX {
            (u16::MAX - x) as u16
        } else {
            width
        },
        height: if y + height > u16::MAX {
            (u16::MAX - y) as u16
        } else {
            height
        },
    }
}

/// Calls `ratatui::layout::Rect::new` and copies the four fields of what
/// it returns.  Claimed: the corner is kept, and width and height are cut
/// so that corner plus size stays within `u16`.
#[verifier::external_body]
fn rect_new(x: u16, y: u16, width: u16, height: u16) -> (r: Rect)
    ensures
        r == clamped(x, y, width, height),
{
    let r = ratatui::layout::Rect::new(x, y, width, height);
    Rect { x: r.x, y: r.y, width: r.width, height: r.height }
}

/// The stroke in row `row` from column `start` up to `end`.
pub open spec fn seg(row: u8, start: u8, end: u8) -> Segment {
    Segment { row, start, end }
}

/// The glyph of each role: its strokes from top to bottom.
pub open spec fn font(role: Role) -> Seq<Segment> {
    match role {
        Role::Pawn => seq![
            seg(1, 3, 5),
            seg(2, 2, 6),
            seg(3, 2, 6),
            seg(4, 3, 5),
            seg(5, 3, 5),
            seg(6, 2, 6),
        ],
        Role::Bishop => seq![
            seg(0, 4, 5),
            seg(1, 3, 4),
            seg(2, 2, 3),
            seg(2, 5, 6),
            seg(3, 2, 6),
            seg(4, 3, 5),
            seg(5, 3, 5),
            seg(6, 2, 6),
        ],
        Role::Rook => seq![
            seg(1, 1, 2),
            seg(1, 3, 5),
            seg(1, 6, 7),
            seg(2, 1, 7),
            seg(3, 2, 6),
            seg(4, 2, 6),
            seg(5, 2, 6),
            seg(6, 1, 7),
        ],
        Role::Knight => seq![
            seg(0, 3, 6),
            seg(1, 2, 7),
            seg(2, 1, 7),
            seg(3, 3, 7),
            seg(4, 2, 6),
            seg(5, 2, 6),
            seg(6, 1, 7),
        ],
        Role::Queen => seq![
            seg(0, 1, 2),
            seg(0, 6, 7),
            seg(1, 2, 3),
            seg(1, 5, 6),
            seg(2, 0, 1),
            seg(2, 3, 5),
            seg(2, 7, 8),
            seg(3, 1, 7),
            seg(4, 2, 3),
            seg(4, 5, 6),
            seg(5, 2, 6),
            seg(6, 1, 7),
        ],
        Role::King => seq![
            seg(0, 3, 5),
            seg(1, 1, 3),
            seg(1, 5, 7),
            seg(2, 0, 1),
            seg(2, 2, 6),
            seg(2, 7, 8),
            seg(3, 0, 1),
            seg(3, 3, 5),
            seg(3, 7, 8),
            seg(4, 1, 7),
            seg(5, 2, 6),
            seg(6, 1, 7),
        ],
    }
}

/// The stroke in row `row` from column `start` up to `end`.
fn stroke(row: u8, start: u8, end: u8) -> (s: Segment)
    ensures
        s == seg(row, start, end),
{
    Segment { row, start, end }
}

/// The strokes of a role's glyph.
pub fn glyph(role: Role) -> (strokes: Vec<Segment>)
    ensures
        strokes@ == font(role),
{
    match role {
        Role::Pawn => vec![
            stroke(1, 3, 5),
            stroke(2, 2, 6),
            stroke(3, 2, 6),
            stroke(4, 3, 5),
            stroke(5, 3, 5),
            stroke(6, 2, 6),
        ],
        Role::Bishop => vec![
            stroke(0, 4, 5),
            stroke(1, 3, 4),
            stroke(2, 2, 3),
            stroke(2, 5, 6),
            stroke(3, 2, 6),
            stroke(4, 3, 5),
            stroke(5, 3, 5),
            stroke(6, 2, 6),
        ],
        Role::Rook => vec![
            stroke(1, 1, 2),
            stroke(1, 3, 5),
            stroke(1, 6, 7),
            stroke(2, 1, 7),
            stroke(3, 2, 6),
            stroke(4, 2, 6),
            stroke(5, 2, 6),
            stroke(6, 1, 7),
        ],
        Role::Knight => vec![
            stroke(0, 3, 6),
            stroke(1, 2, 7),
            stroke(2, 1, 7),
            stroke(3, 3, 7),
            stroke(4, 2, 6),
            stroke(5, 2, 6),
            stroke(6, 1, 7),
        ],
        Role::Queen => vec![
            stroke(0, 1, 2),
            stroke(0, 6, 7),
            stroke(1, 2, 3),
            stroke(1, 5, 6),
            stroke(2, 0, 1),
            stroke(2, 3, 5),
            stroke(2, 7, 8),
            stroke(3, 1, 7),
            stroke(4, 2, 3),
            stroke(4, 5, 6),
            stroke(5, 2, 6),
            stroke(6, 1, 7),
        ],
        Role::King => vec![
            stroke(0, 3, 5),
            stroke(1, 1, 3),
            stroke(1, 5, 7),
            stroke(2, 0, 1),
            stroke(2, 2, 6),
            stroke(2, 7, 8),
            stroke(3, 0, 1),
            stroke(3, 3, 5),
            stroke(3, 7, 8),
            stroke(4, 1, 7),
            stroke(5, 2, 6),
            stroke(6, 1, 7),
        ],
    }
}

/// How many dots a stroke is long.
pub open spec fn run_len(stroke: Segment) -> nat {
    if stroke.start < stroke.end {
        (stroke.end - stroke.start) as nat
    } else {
        0
    }
}

/// The dots of one stroke, from left to right.
pub open spec fn run_dots(stroke: Segment, color: TermColor) -> Seq<Dot> {
    Seq::new(
        run_len(stroke),
        |k: int| Dot { x: (stroke.start + k) as usize, y: stroke.row as usize, color },
    )
}

/// The dots of a list of strokes: stroke after stroke, each from left to
/// right.
pub open spec fn strokes_dots(strokes: Seq<Segment>, color: TermColor) -> Seq<Dot>
    decreases strokes.len(),
{
    if strokes.len() == 0 {
        Seq::empty()
    } else {
        strokes_dots(strokes.drop_last(), color) + run_dots(strokes.last(), color)
    }
}

/// A piece as a shape to paint: the glyph of its role in one colour.
#[derive(Clone, Copy, Debug, PartialEq, Eq, Structural)]
pub struct ChessPiece {
    pub role: Role,
    pub color: TermColor,
}

impl ChessPiece {
    /// The glyph of `role`, to be painted in `color`.
    pub fn new(role: Role, color: TermColor) -> (shape: ChessPiece)
        ensures
            shape.role == role,
            shape.color == color,
    {
        ChessPiece { role, color }
    }

    /// The dots to paint, in painting order.
    pub open spec fn dots(self) -> Seq<Dot> {
        strokes_dots(font(self.role), self.color)
    }

    /// Lists the dots of the glyph in the order in which they are painted.
    pub fn draw(&self) -> (painted: Vec<Dot>)
        ensures
            painted@ == self.dots(),
    {
        let strokes = glyph(self.role);
        let color = self.color;
        let mut painted: Vec<Dot> = Vec::new();
        let mut s: usize = 0;
        while s < strokes.len()
            invariant
                s <= strokes.len(),
                painted@ == strokes_dots(strokes@.take(s as int), color),
            decreases strokes.len() - s,
        {
            let stroke = strokes[s];
            let ghost before = painted@;
            let mut i: u8 = stroke.start;
            while i < stroke.end
                invariant
                    stroke.start <= i,
                    stroke.start < stroke.end ==> i <= stroke.end,
                    stroke.end <= stroke.start ==> i == stroke.start,
                    painted@ == before + run_dots(stroke, color).take(i - stroke.start),
                decreases stroke.end - i,
            {
                painted.push(Dot { x: i as usize, y: stroke.row as usize, color });
                assert(run_dots(stroke, color).take(i + 1 - stroke.start) == run_dots(
                    stroke,
                    color,
                ).take(i - stroke.start).push(run_dots(stroke, color)[i - stroke.start]));
                i = i + 1;
            }
            assert(i - stroke.start == run_len(stroke));
            assert(run_dots(stroke, color).take(run_len(stroke) as int) == run_dots(stroke, color));
            assert(strokes@.take(s + 1).drop_last() == strokes@.take(s as int));
            s = s + 1;
        }
        assert(strokes@.take(strokes.len() as int) == strokes@);
        painted
    }
}

/// Strokes that stay within a grid of `width` by `height` dots give dots
/// within it, all in the colour asked for.
proof fn lemma_strokes_inside(strokes: Seq<Segment>, color: TermColor, width: int, height: int)
    requires
        forall|j: int|
            0 <= j < strokes.len() ==> (#[trigger] strokes[j]).end <= width && strokes[j].row
                < height,
    ensures
        forall|i: int|
            0 <= i < strokes_dots(strokes, color).len() ==> {
                let dot = #[trigger] strokes_dots(strokes, color)[i];
                dot.x < width && dot.y < height && dot.color == color
            },
    decreases strokes.len(),
{
    if strokes.len() > 0 {
        let front = strokes.drop_last();
        assert forall|j: int| 0 <= j < front.len() implies (#[trigger] front[j]).end <= width
            && front[j].row < height by {
            assert(front[j] == strokes[j]);
        }
        lemma_strokes_inside(front, color, width, height);
        let stroke = strokes.last();
        assert(stroke == strokes[strokes.len() - 1]);
        assert forall|i: int| 0 <= i < strokes_dots(strokes, color).len() implies {
            let dot = #[trigger] strokes_dots(strokes, color)[i];
            dot.x < width && dot.y < height && dot.color == color
        } by {
            let head = strokes_dots(front, color);
            if i >= head.len() {
                assert(strokes_dots(strokes, color)[i] == run_dots(stroke, color)[i - head.len()]);
            } else {
                assert(strokes_dots(strokes, color)[i] == head[i]);
            }
        }
    }
}

/// Every stroke of every glyph lies within the eight by eight dots of a
/// tile.
pub proof fn lemma_font_inside(role: Role)
    ensures
        forall|j: int|
            0 <= j < font(role).len() ==> (#[trigger] font(role)[j]).start < font(role)[j].end
                && font(role)[j].end <= 8 && font(role)[j].row < 8,
{
}

/// A glyph is painted inside its tile and in one colour: every dot of a
/// shape lies within the eight by eight dots that four columns by two
/// rows of cells hold, and has the colour of the shape.
pub proof fn lemma_dots_inside(shape: ChessPiece)
    ensures
        forall|i: int|
            0 <= i < shape.dots().len() ==> {
                let dot = #[trigger] shape.dots()[i];
                dot.x < 8 && dot.y < 8 && dot.color == shape.color
            },
{
    lemma_font_inside(shape.role);
    lemma_strokes_inside(font(shape.role), shape.color, 8, 8);
}

/// Whether stroke `s` ends before stroke `t` begins, reading row by row
/// from the top and each row from the left.
pub open spec fn precedes(s: Segment, t: Segment) -> bool {
    s.row < t.row || (s.row == t.row && s.end <= t.start)
}

/// Whether strokes come in reading order without touching one another.
pub open spec fn in_reading_order(strokes: Seq<Segment>) -> bool {
    forall|j: int, k: int|
        0 <= j < k < strokes.len() ==> precedes(#[trigger] strokes[j], #[trigger] strokes[k])
}

/// The place of a dot in reading order.
pub open spec fn place(dot: Dot) -> int {
    dot.y * 8 + dot.x
}

/// Dots of strokes that all end before `next` begins come before it.
proof fn lemma_dots_before(strokes: Seq<Segment>, color: TermColor, next: Segment)
    requires
        forall|j: int|
            0 <= j < strokes.len() ==> (#[trigger] strokes[j]).end <= 8 && precedes(
                strokes[j],
                next,
            ),
    ensures
        forall|i: int|
            0 <= i < strokes_dots(strokes, color).len() ==> place(
                #[trigger] strokes_dots(strokes, color)[i],
            ) < next.row * 8 + next.start,
    decreases strokes.len(),
{
    if strokes.len() > 0 {
        let front = strokes.drop_last();
        let stroke = strokes.last();
        assert(stroke == strokes[strokes.len() - 1]);
        assert forall|j: int| 0 <= j < front.len() implies (#[trigger] front[j]).end <= 8
            && precedes(front[j], next) by {
            assert(front[j] == strokes[j]);
        }
        lemma_dots_before(front, color, next);
        let head = strokes_dots(front, color);
        assert forall|i: int| 0 <= i < strokes_dots(strokes, color).len() implies place(
            #[trigger] strokes_dots(strokes, color)[i],
        ) < next.row * 8 + next.start by {
            if i >= head.len() {
                assert(strokes_dots(strokes, color)[i] == run_dots(stroke, color)[i - head.len()]);
            } else {
                assert(strokes_dots(strokes, color)[i] == head[i]);
            }
        }
    }
}

/// Strokes in reading order paint their dots in reading order.
proof fn lemma_dots_in_order(strokes: Seq<Segment>, color: TermColor)
    requires
        in_reading_order(strokes),
        forall|j: int| 0 <= j < strokes.len() ==> (#[trigger] strokes[j]).end <= 8,
    ensures
        forall|a: int, b: int|
            0 <= a < b < strokes_dots(strokes, color).len() ==> place(
                #[trigger] strokes_dots(strokes, color)[a],
            ) < place(#[trigger] strokes_dots(strokes, color)[b]),
    decreases strokes.len(),
{
    if strokes.len() > 0 {
        let front = strokes.drop_last();
        let stroke = strokes.last();
        assert(stroke == strokes[strokes.len() - 1]);
        assert forall|j: int| 0 <= j < front.len() implies (#[trigger] front[j]).end <= 8
            && precedes(front[j], stroke) by {
            assert(front[j] == strokes[j]);
        }
        assert(in_reading_order(front)) by {
            assert forall|j: int, k: int| 0 <= j < k < front.len() implies precedes(
                #[trigger] front[j],
                #[trigger] front[k],
            ) by {
                assert(front[j] == strokes[j]);
                assert(front[k] == strokes[k]);
            }
        }
        lemma_dots_in_order(front, color);
        lemma_dots_before(front, color, stroke);
        let head = strokes_dots(front, color);
        let all = strokes_dots(strokes, color);
        assert forall|a: int, b: int| 0 <= a < b < all.len() implies place(#[trigger] all[a])
            < place(#[trigger] all[b]) by {
            if b < head.len() {
                assert(all[a] == head[a]);
                assert(all[b] == head[b]);
            } else if a < head.len() {
                assert(all[a] == head[a]);
                assert(all[b] == run_dots(stroke, color)[b - head.len()]);
            } else {
                assert(all[a] == run_dots(stroke, color)[a - head.len()]);
                assert(all[b] == run_dots(stroke, color)[b - head.len()]);
            }
        }
    }
}

/// The strokes of every glyph come in reading order without touching.
pub proof fn lemma_font_in_reading_order(role: Role)
    ensures
        in_reading_order(font(role)),
{
}

/// No dot of a glyph is painted twice, so the order of painting does not
/// show: the dots of a shape come strictly in reading order.
pub proof fn lemma_no_dot_twice(shape: ChessPiece)
    ensures
        forall|a: int, b: int|
            0 <= a < b < shape.dots().len() ==> place(#[trigger] shape.dots()[a]) < place(
                #[trigger] shape.dots()[b],
            ),
        shape.dots().no_duplicates(),
{
    lemma_font_inside(shape.role);
    lemma_font_in_reading_order(shape.role);
    lemma_dots_in_order(font(shape.role), shape.color);
    assert forall|a: int, b: int|
        0 <= a < shape.dots().len() && 0 <= b < shape.dots().len() && a != b implies shape.dots()[a]
        != shape.dots()[b] by {
        if a < b {
            assert(place(shape.dots()[a]) < place(shape.dots()[b]));
        } else {
            assert(place(shape.dots()[b]) < place(shape.dots()[a]));
        }
    }
}

/// One square of the drawn board.
#[derive(Clone, Copy, Debug, PartialEq, Eq, Structural)]
pub struct Tile {
    /// The cells that the square takes.
    pub area: Rect,
    /// The colour that fills them.
    pub background: TermColor,
    /// The piece to paint over it, if one stands there.
    pub shape: Option<ChessPiece>,
}

/// The colour that a piece of a side is painted in.
pub open spec fn ink(color: Color) -> TermColor {
    match color {
        Color::Black => TermColor::Black,
        Color::White => TermColor::White,
    }
}

/// The colour under the square at `file` and `rank`.
pub open spec fn ground(file: int, rank: int) -> TermColor {
    if (file + rank) % 2 == 0 {
        TermColor::Gray
    } else {
        TermColor::DarkGray
    }
}

/// The shape that stands for what a square holds.
pub open spec fn shape_of(content: Option<Piece>) -> Option<ChessPiece> {
    match content {
        Some(piece) => Some(ChessPiece { role: piece.role, color: ink(piece.color) }),
        None => None,
    }
}

/// Whether a board drawn at the corner of `area` stays within the
/// coordinates of a terminal.
pub open spec fn corner_fits(area: Rect) -> bool {
    area.x + 7 * TILE_WIDTH <= u16::MAX && area.y + 7 * TILE_HEIGHT <= u16::MAX
}

/// The tile of the square at `file` and `rank` when the board is drawn at
/// the corner of `area`, white at the bottom.
pub open spec fn tile_at(position: PositionView, area: Rect, file: int, rank: int) -> Tile {
    Tile {
        area: clamped(
            (area.x + file * TILE_WIDTH) as u16,
            (area.y + (7 - rank) * TILE_HEIGHT) as u16,
            TILE_WIDTH,
            TILE_HEIGHT,
        ),
        background: ground(file, rank),
        shape: shape_of(position.squares[rank * 8 + file]),
    }
}

/// The tiles of the whole board, file by file from `a` to `h`, and in
/// each file from the first rank to the eighth.
pub open spec fn board_tiles(position: PositionView, area: Rect) -> Seq<Tile> {
    Seq::new(64, |k: int| tile_at(position, area, k / 8, k % 8))
}

/// The board widget: a position to draw.
#[derive(Clone, Copy, Debug, PartialEq, Eq)]
pub struct ChessBoard {
    alignment: Alignment,
    data: Position,
}

impl ChessBoard {
    /// The position that the widget draws.
    pub closed spec fn position(self) -> Position {
        self.data
    }

    /// Where the widget is to stand.
    pub closed spec fn aligned(self) -> Alignment {
        self.alignment
    }

    /// A centred board that shows `data`.
    pub fn new(data: Position) -> (board: ChessBoard)
        ensures
            board.position() == data,
            board.aligned() == Alignment::Center,
    {
        ChessBoard { alignment: Alignment::Center, data }
    }

    /// The same board, standing as `alignment` says.
    pub fn alignment(self, alignment: Alignment) -> (board: ChessBoard)
        ensures
            board.position() == self.position(),
            board.aligned() == alignment,
    {
        let mut board = self;
        board.alignment = alignment;
        board
    }

    /// Whether the board can be laid out at the corner of `area`.
    pub fn fits(area: Rect) -> (fits: bool)
        ensures
            fits == corner_fits(area),
    {
        area.x <= u16::MAX - 7 * TILE_WIDTH && area.y <= u16::MAX - 7 * TILE_HEIGHT
    }

    /// Lays the board out at the corner of `area`: one tile for each of
    /// the 64 squares.
    pub fn render(&self, area: Rect) -> (tiles: Vec<Tile>)
        requires
            corner_fits(area),
        ensures
            tiles@ == board_tiles(self.position()@, area),
    {
        let mut tiles: Vec<Tile> = Vec::new();
        let mut f: u16 = 0;
        while f < 8
            invariant
                f <= 8,
                corner_fits(area),
                tiles@.len() == f * 8,
                forall|k: int|
                    0 <= k < f * 8 ==> tiles@[k] == tile_at(self.data@, area, k / 8, k % 8),
            decreases 8 - f,
        {
            let mut r: u16 = 0;
            while r < 8
                invariant
                    f < 8,
                    r <= 8,
                    corner_fits(area),
                    tiles@.len() == f * 8 + r,
                    forall|k: int|
                        0 <= k < f * 8 + r ==> tiles@[k] == tile_at(self.data@, area, k / 8, k % 8),
                decreases 8 - r,
            {
                let content = self.data.board[(r * 8 + f) as usize];
                let shape = match content {
                    Some(piece) => {
                        let fg_color = match piece.color {
                            Color::Black => TermColor::Black,
                            Color::White => TermColor::White,
                        };
                        Some(ChessPiece::new(piece.role, fg_color))
                    },
                    None => None,
                };
                let bg_color = if (f + r) % 2 == 0 {
                    TermColor::Gray
                } else {
                    TermColor::DarkGray
                };
                let area = rect_new(
                    area.x + f * TILE_WIDTH,
                    area.y + (7 - r) * TILE_HEIGHT,
                    TILE_WIDTH,
                    TILE_HEIGHT,
                );
                tiles.push(Tile { area, background: bg_color, shape });
                r = r + 1;
            }
            f = f + 1;
        }
        assert(tiles@ =~= board_tiles(self.data@, area));
        tiles
    }
}

/// A bare board is drawn as background alone: where no square is
/// occupied, no tile has a shape to paint.
pub proof fn lemma_bare_board_paints_nothing(position: PositionView, area: Rect)
    requires
        position.squares.len() == 64,
        count_occupied(position.squares) == 0,
    ensures
        forall|k: int|
            0 <= k < 64 ==> (#[trigger] board_tiles(position, area)[k]).shape is None,
{
    lemma_bare_iff_none_occupied(position.squares);
    assert forall|k: int| 0 <= k < 64 implies (#[trigger] board_tiles(position, area)[k]).shape
        is None by {
        let square = (k % 8) * 8 + k / 8;
        assert(0 <= square < 64);
        assert(position.squares[square] is None);
    }
}

/// Each tile shows its own square: the tile of a file and a rank stands
/// at that file from the left and that rank from the bottom, on the
/// ground of that square, with the shape of what the square holds.
pub proof fn lemma_tile_of_square(position: PositionView, area: Rect, file: int, rank: int)
    requires
        0 <= file < 8,
        0 <= rank < 8,
    ensures
        board_tiles(position, area)[file * 8 + rank] == tile_at(position, area, file, rank),
{
}

/// Drawing is a function of the position and the corner alone: boards
/// that show the same position are laid out alike, however they are
/// aligned, and so is one board drawn twice.
pub proof fn lemma_render_repeats(
    first: ChessBoard,
    second: ChessBoard,
    area: Rect,
    first_tiles: Seq<Tile>,
    second_tiles: Seq<Tile>,
)
    requires
        first.position()@ == second.position()@,
        first_tiles == board_tiles(first.position()@, area),
        second_tiles == board_tiles(second.position()@, area),
    ensures
        first_tiles == second_tiles,
{
}

} // verus!
