use lichess_tv::position::{Color, Piece, Position, Role};
use lichess_tv::widgets::board::{
    glyph, Alignment, ChessBoard, ChessPiece, Dot, Rect, Segment, TermColor, Tile, TILE_HEIGHT,
    TILE_WIDTH,
};

const START: &str = "rnbqkbnr/pppppppp/8/8/8/8/PPPPPPPP/RNBQKBNR w KQkq - 0 1";

const ROLES: [Role; 6] =
    [Role::Pawn, Role::Knight, Role::Bishop, Role::Rook, Role::Queen, Role::King];

fn strokes(rows: &[[u8; 3]]) -> Vec<Segment> {
    rows.iter().map(|s| Segment { row: s[0], start: s[1], end: s[2] }).collect()
}

fn area() -> Rect {
    Rect { x: 3, y: 5, width: 80, height: 24 }
}

#[test]
fn a_tile_is_four_columns_by_two_rows() {
    assert_eq!(TILE_WIDTH, 4);
    assert_eq!(TILE_HEIGHT, 2);
}

#[test]
fn glyph_of_the_pawn() {
    assert_eq!(
        glyph(Role::Pawn),
        strokes(&[[1, 3, 5], [2, 2, 6], [3, 2, 6], [4, 3, 5], [5, 3, 5], [6, 2, 6]])
    );
}

#[test]
fn glyph_of_the_bishop() {
    assert_eq!(
        glyph(Role::Bishop),
        strokes(&[
            [0, 4, 5],
            [1, 3, 4],
            [2, 2, 3],
            [2, 5, 6],
            [3, 2, 6],
            [4, 3, 5],
            [5, 3, 5],
            [6, 2, 6]
        ])
    );
}

#[test]
fn glyph_of_the_rook() {
    assert_eq!(
        glyph(Role::Rook),
        strokes(&[
            [1, 1, 2],
            [1, 3, 5],
            [1, 6, 7],
            [2, 1, 7],
            [3, 2, 6],
            [4, 2, 6],
            [5, 2, 6],
            [6, 1, 7]
        ])
    );
}

#[test]
fn glyph_of_the_knight() {
    assert_eq!(
        glyph(Role::Knight),
        strokes(&[[0, 3, 6], [1, 2, 7], [2, 1, 7], [3, 3, 7], [4, 2, 6], [5, 2, 6], [6, 1, 7]])
    );
}

#[test]
fn glyph_of_the_queen() {
    assert_eq!(
        glyph(Role::Queen),
        strokes(&[
            [0, 1, 2],
            [0, 6, 7],
            [1, 2, 3],
            [1, 5, 6],
            [2, 0, 1],
            [2, 3, 5],
            [2, 7, 8],
            [3, 1, 7],
            [4, 2, 3],
            [4, 5, 6],
            [5, 2, 6],
            [6, 1, 7]
        ])
    );
}

#[test]
fn glyph_of_the_king() {
    assert_eq!(
        glyph(Role::King),
        strokes(&[
            [0, 3, 5],
            [1, 1, 3],
            [1, 5, 7],
            [2, 0, 1],
            [2, 2, 6],
            [2, 7, 8],
            [3, 0, 1],
            [3, 3, 5],
            [3, 7, 8],
            [4, 1, 7],
            [5, 2, 6],
            [6, 1, 7]
        ])
    );
}

#[test]
fn chess_piece_new_keeps_role_and_colour() {
    let shape = ChessPiece::new(Role::Queen, TermColor::Black);
    assert_eq!(shape.role, Role::Queen);
    assert_eq!(shape.color, TermColor::Black);
}

#[test]
fn draw_paints_the_pawn_dot_by_dot() {
    let color = TermColor::White;
    let expected: Vec<Dot> = [
        (3, 1),
        (4, 1),
        (2, 2),
        (3, 2),
        (4, 2),
        (5, 2),
        (2, 3),
        (3, 3),
        (4, 3),
        (5, 3),
        (3, 4),
        (4, 4),
        (3, 5),
        (4, 5),
        (2, 6),
        (3, 6),
        (4, 6),
        (5, 6),
    ]
    .iter()
    .map(|&(x, y)| Dot { x, y, color })
    .collect();
    assert_eq!(ChessPiece::new(Role::Pawn, color).draw(), expected);
}

#[test]
fn draw_paints_each_stroke_from_left_to_right() {
    for role in ROLES {
        for color in [TermColor::White, TermColor::Black] {
            let mut expected = Vec::new();
            for stroke in glyph(role) {
                for x in stroke.start..stroke.end {
                    expected.push(Dot { x: x as usize, y: stroke.row as usize, color });
                }
            }
            assert_eq!(ChessPiece::new(role, color).draw(), expected);
        }
    }
}

#[test]
fn draw_counts_the_dots_of_each_glyph() {
    let counts = [18, 32, 16, 28, 26, 32];
    for (role, count) in ROLES.iter().zip(counts) {
        assert_eq!(ChessPiece::new(*role, TermColor::White).draw().len(), count);
    }
}

#[test]
fn draw_stays_inside_the_tile() {
    for role in ROLES {
        let painted = ChessPiece::new(role, TermColor::Black).draw();
        assert!(!painted.is_empty());
        for dot in painted {
            assert!(dot.x < 2 * TILE_WIDTH as usize);
            assert!(dot.y < 4 * TILE_HEIGHT as usize);
            assert_eq!(dot.color, TermColor::Black);
        }
    }
}

#[test]
fn draw_paints_no_dot_twice() {
    for role in ROLES {
        let painted = ChessPiece::new(role, TermColor::White).draw();
        for (i, dot) in painted.iter().enumerate() {
            assert!(!painted[..i].contains(dot));
        }
    }
}

#[test]
fn new_board_is_centred() {
    let position = Position::from_fen(START).expect("valid");
    let board = ChessBoard::new(position);
    let expected = ChessBoard::new(position).alignment(Alignment::Center);
    assert_eq!(board, expected);
    assert_ne!(board, ChessBoard::new(position).alignment(Alignment::Right));
    assert_ne!(board, ChessBoard::new(Position::empty()));
}

#[test]
fn alignment_keeps_the_position() {
    let position = Position::from_fen(START).expect("valid");
    let left = ChessBoard::new(position).alignment(Alignment::Left);
    let right = ChessBoard::new(position).alignment(Alignment::Right);
    assert_ne!(left, right);
    assert_eq!(left.render(area()), ChessBoard::new(position).render(area()));
    assert_eq!(right.render(area()), ChessBoard::new(position).render(area()));
    assert_eq!(left.alignment(Alignment::Right), right);
}

#[test]
fn render_lays_out_sixty_four_tiles() {
    let tiles = ChessBoard::new(Position::empty()).render(area());
    assert_eq!(tiles.len(), 64);
    for file in 0..8u16 {
        for rank in 0..8u16 {
            let tile = tiles[(file * 8 + rank) as usize];
            assert_eq!(
                tile.area,
                Rect { x: 3 + 4 * file, y: 5 + 2 * (7 - rank), width: 4, height: 2 }
            );
        }
    }
}

#[test]
fn render_puts_white_at_the_bottom() {
    let tiles = ChessBoard::new(Position::from_fen(START).expect("valid")).render(area());
    let a1 = tiles[0];
    assert_eq!(a1.area, Rect { x: 3, y: 19, width: 4, height: 2 });
    assert_eq!(a1.shape, Some(ChessPiece { role: Role::Rook, color: TermColor::White }));
    let a8 = tiles[7];
    assert_eq!(a8.area, Rect { x: 3, y: 5, width: 4, height: 2 });
    assert_eq!(a8.shape, Some(ChessPiece { role: Role::Rook, color: TermColor::Black }));
    let h1 = tiles[56];
    assert_eq!(h1.area, Rect { x: 31, y: 19, width: 4, height: 2 });
    let e1 = tiles[32];
    assert_eq!(e1.area, Rect { x: 19, y: 19, width: 4, height: 2 });
    assert_eq!(e1.shape, Some(ChessPiece { role: Role::King, color: TermColor::White }));
    let d8 = tiles[31];
    assert_eq!(d8.area, Rect { x: 15, y: 5, width: 4, height: 2 });
    assert_eq!(d8.shape, Some(ChessPiece { role: Role::Queen, color: TermColor::Black }));
}

#[test]
fn render_alternates_the_ground() {
    let tiles = ChessBoard::new(Position::empty()).render(area());
    for file in 0..8usize {
        for rank in 0..8usize {
            let expected =
                if (file + rank) % 2 == 0 { TermColor::Gray } else { TermColor::DarkGray };
            assert_eq!(tiles[file * 8 + rank].background, expected);
        }
    }
    assert_eq!(tiles[0].background, TermColor::Gray);
    assert_eq!(tiles[1].background, TermColor::DarkGray);
    assert_eq!(tiles[8].background, TermColor::DarkGray);
    assert_eq!(tiles[63].background, TermColor::Gray);
}

#[test]
fn render_shows_what_each_square_holds() {
    let position = Position::from_fen("8/8/8/3q4/8/8/6N1/K7 b - - 3 42").expect("valid");
    let tiles = ChessBoard::new(position).render(area());
    for file in 0..8usize {
        for rank in 0..8usize {
            let expected = position.board[rank * 8 + file].map(|piece| ChessPiece {
                role: piece.role,
                color: match piece.color {
                    Color::White => TermColor::White,
                    Color::Black => TermColor::Black,
                },
            });
            assert_eq!(tiles[file * 8 + rank].shape, expected);
        }
    }
    assert_eq!(tiles.iter().filter(|tile| tile.shape.is_some()).count(), 3);
    assert_eq!(tiles[0].shape, Some(ChessPiece { role: Role::King, color: TermColor::White }));
    assert_eq!(tiles[49].shape, Some(ChessPiece { role: Role::Knight, color: TermColor::White }));
    assert_eq!(tiles[28].shape, Some(ChessPiece { role: Role::Queen, color: TermColor::Black }));
}

#[test]
fn render_of_a_bare_board_is_background_alone() {
    let tiles = ChessBoard::new(Position::empty()).render(area());
    assert_eq!(tiles.len(), 64);
    assert!(tiles.iter().all(|tile| tile.shape.is_none()));
    let read = Position::from_fen("8/8/8/8/8/8/8/8 w - - 0 1").expect("valid");
    assert!(ChessBoard::new(read).render(area()).iter().all(|tile| tile.shape.is_none()));
}

#[test]
fn render_twice_gives_the_same_tiles() {
    let board = ChessBoard::new(Position::from_fen(START).expect("valid"));
    let first = board.render(area());
    let second = board.render(area());
    assert_eq!(first, second);
    let again = ChessBoard::new(Position::from_fen(START).expect("valid")).render(area());
    assert_eq!(first, again);
}

#[test]
fn render_does_not_depend_on_the_move_number() {
    let mut board = [None; 64];
    board[10] = Some(Piece { role: Role::Bishop, color: Color::Black });
    let early = ChessBoard::new(Position::new(board, 1)).render(area());
    let late = ChessBoard::new(Position::new(board, 99)).render(area());
    assert_eq!(early, late);
}

#[test]
fn render_ignores_the_size_of_the_area() {
    let position = Position::from_fen(START).expect("valid");
    let small = Rect { x: 3, y: 5, width: 1, height: 1 };
    assert_eq!(ChessBoard::new(position).render(small), ChessBoard::new(position).render(area()));
}

#[test]
fn render_cuts_tiles_at_the_last_coordinate() {
    let corner = Rect { x: u16::MAX - 30, y: u16::MAX - 15, width: 40, height: 20 };
    assert!(ChessBoard::fits(corner));
    let tiles = ChessBoard::new(Position::empty()).render(corner);
    let h1: Tile = tiles[56];
    assert_eq!(h1.area, Rect { x: u16::MAX - 2, y: u16::MAX - 1, width: 2, height: 1 });
    let g8 = tiles[55];
    assert_eq!(g8.area, Rect { x: u16::MAX - 6, y: u16::MAX - 15, width: 4, height: 2 });
    let h2 = tiles[57];
    assert_eq!(h2.area, Rect { x: u16::MAX - 2, y: u16::MAX - 3, width: 2, height: 2 });
}

#[test]
fn fits_tells_where_the_board_can_stand() {
    assert!(ChessBoard::fits(Rect { x: 0, y: 0, width: 0, height: 0 }));
    assert!(ChessBoard::fits(area()));
    assert!(ChessBoard::fits(Rect { x: u16::MAX - 28, y: u16::MAX - 14, width: 1, height: 1 }));
    assert!(!ChessBoard::fits(Rect { x: u16::MAX - 27, y: 0, width: 1, height: 1 }));
    assert!(!ChessBoard::fits(Rect { x: 0, y: u16::MAX - 13, width: 1, height: 1 }));
    assert!(!ChessBoard::fits(Rect { x: u16::MAX, y: u16::MAX, width: 1, height: 1 }));
}
