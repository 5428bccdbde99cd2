use fourtris::board::Board;
use fourtris::coord::Coord;
use fourtris::game::points_for_lines;
use fourtris::game_renderer::TetriminoType;
use fourtris::pieces::{Orientation, Piece, PieceType};

fn c(x: i32, y: i32) -> Coord {
    Coord { x, y }
}

fn fill_row_except(board: &mut Board, y: usize, gap: Option<usize>) {
    for x in 0..10 {
        if Some(x) != gap {
            board.add_tetrimino_at(x, y, TetriminoType::T);
        }
    }
}

#[test]
fn new_board_is_empty() {
    let board = Board::new();
    for y in 0..22u8 {
        for x in 0..10u8 {
            assert_eq!(board.tetrimino_type_at(x, y), TetriminoType::EmptySpace);
        }
    }
    assert!(!board.is_board_full());
}

#[test]
fn add_tetrimino_at_sets_one_cell() {
    let mut board = Board::new();
    board.add_tetrimino_at(3, 7, TetriminoType::S);
    assert_eq!(board.tetrimino_type_at(3, 7), TetriminoType::S);
    assert_eq!(board.tetrimino_type_at(7, 3), TetriminoType::EmptySpace);
    assert_eq!(board.tetrimino_type_at(4, 7), TetriminoType::EmptySpace);
}

#[test]
fn bounds_reject_each_edge() {
    let board = Board::new();
    let inside = [c(0, 0), c(9, 0), c(0, 21), c(9, 21)];
    assert!(board.is_tetrimino_within_bounds(&inside));
    assert!(!board.is_tetrimino_within_bounds(&[c(-1, 0), c(1, 0), c(2, 0), c(3, 0)]));
    assert!(!board.is_tetrimino_within_bounds(&[c(7, 0), c(8, 0), c(9, 0), c(10, 0)]));
    assert!(!board.is_tetrimino_within_bounds(&[c(4, 0), c(4, -1), c(4, -2), c(4, 1)]));
    assert!(!board.is_tetrimino_within_bounds(&[c(4, 19), c(4, 20), c(4, 21), c(4, 22)]));
}

#[test]
fn bounds_accept_row_below_bottom() {
    let board = Board::new();
    assert!(board.is_tetrimino_within_bounds(&[c(3, -1), c(4, -1), c(5, -1), c(6, -1)]));
}

#[test]
fn occupied_only_on_taken_cells() {
    let mut board = Board::new();
    board.add_tetrimino_at(4, 0, TetriminoType::J);
    assert!(board.is_occupied(&[c(3, 0), c(4, 0), c(5, 0), c(6, 0)]));
    assert!(!board.is_occupied(&[c(3, 1), c(4, 1), c(5, 1), c(6, 1)]));
    // cells below the bottom row are never taken
    assert!(!board.is_occupied(&[c(4, -1), c(5, -1), c(6, -1), c(7, -1)]));
}

#[test]
fn at_the_bottom_needs_row_minus_one_and_nothing_lower() {
    let board = Board::new();
    assert!(board.is_at_the_bottom(&[c(4, -1), c(5, -1), c(6, 0), c(7, 0)]));
    assert!(!board.is_at_the_bottom(&[c(4, 0), c(5, 0), c(6, 0), c(7, 0)]));
    assert!(!board.is_at_the_bottom(&[c(4, -1), c(5, -2), c(6, 0), c(7, 0)]));
}

#[test]
fn add_piece_stamps_and_returns_row_range() {
    let mut board = Board::new();
    let piece = Piece { piece_type: PieceType::LType, position: [c(4, 3), c(3, 3), c(5, 3), c(5, 4)] };
    let range = board.add_piece(&piece);
    assert_eq!(range, 3..5);
    assert_eq!(board.tetrimino_type_at(4, 3), TetriminoType::L);
    assert_eq!(board.tetrimino_type_at(3, 3), TetriminoType::L);
    assert_eq!(board.tetrimino_type_at(5, 3), TetriminoType::L);
    assert_eq!(board.tetrimino_type_at(5, 4), TetriminoType::L);
    assert_eq!(board.tetrimino_type_at(4, 4), TetriminoType::EmptySpace);
}

#[test]
fn add_piece_below_the_bottom_row_stamps_only_visible_cells() {
    let mut board = Board::new();
    let piece = Piece { piece_type: PieceType::JType, position: [c(4, 0), c(4, 1), c(5, 1), c(4, -1)] };
    let range = board.add_piece(&piece);
    assert_eq!(range, 0..2);
    assert_eq!(board.tetrimino_type_at(4, 0), TetriminoType::J);
    assert_eq!(board.tetrimino_type_at(4, 1), TetriminoType::J);
    assert_eq!(board.tetrimino_type_at(5, 1), TetriminoType::J);
}

#[test]
fn clear_lines_rows_five_and_seven() {
    let mut board = Board::new();
    for y in 3..10 {
        let gap = if y == 5 || y == 7 { None } else { Some(y % 10) };
        fill_row_except(&mut board, y, gap);
    }
    // markers to follow rows as they move
    board.add_tetrimino_at(0, 6, TetriminoType::I);
    board.add_tetrimino_at(0, 8, TetriminoType::O);
    board.add_tetrimino_at(0, 21, TetriminoType::Z);
    let cleared = board.clear_lines(4..9);
    assert_eq!(cleared, 2);
    // rows below 5 are unchanged
    assert_eq!(board.tetrimino_type_at(3, 3), TetriminoType::EmptySpace);
    assert_eq!(board.tetrimino_type_at(4, 3), TetriminoType::T);
    assert_eq!(board.tetrimino_type_at(4, 4), TetriminoType::EmptySpace);
    // row 6 came down to 5, row 8 to 6, row 9 to 7
    assert_eq!(board.tetrimino_type_at(0, 5), TetriminoType::I);
    assert_eq!(board.tetrimino_type_at(6, 5), TetriminoType::EmptySpace);
    assert_eq!(board.tetrimino_type_at(0, 6), TetriminoType::O);
    assert_eq!(board.tetrimino_type_at(8, 6), TetriminoType::EmptySpace);
    assert_eq!(board.tetrimino_type_at(9, 7), TetriminoType::EmptySpace);
    assert_eq!(board.tetrimino_type_at(0, 7), TetriminoType::T);
    // the top row came down by two, and the two top rows are empty
    assert_eq!(board.tetrimino_type_at(0, 19), TetriminoType::Z);
    for x in 0..10u8 {
        assert_eq!(board.tetrimino_type_at(x, 20), TetriminoType::EmptySpace);
        assert_eq!(board.tetrimino_type_at(x, 21), TetriminoType::EmptySpace);
    }
}

#[test]
fn clear_lines_outside_range_keeps_full_rows() {
    let mut board = Board::new();
    fill_row_except(&mut board, 2, None);
    assert_eq!(board.clear_lines(3..7), 0);
    assert_eq!(board.tetrimino_type_at(0, 2), TetriminoType::T);
    assert_eq!(board.clear_lines(2..3), 1);
    assert_eq!(board.tetrimino_type_at(0, 2), TetriminoType::EmptySpace);
}

#[test]
fn settled_piece_score_by_rows_completed() {
    // a vertical I piece dropped in column 9 completes as many of rows 0..4
    // as are full apart from that column
    let expected = [0u32, 1, 3, 5, 8];
    for completed in 0..5usize {
        let mut board = Board::new();
        for y in 0..4 {
            let gap = if y < completed { Some(9) } else { Some(8) };
            fill_row_except(&mut board, y, gap);
        }
        let piece = Piece {
            piece_type: PieceType::IType(Orientation::VerticalLeft),
            position: [c(9, 0), c(9, 1), c(9, 2), c(9, 3)],
        };
        let range = board.add_piece(&piece);
        let lines = board.clear_lines(range);
        assert_eq!(lines, completed as u32);
        assert_eq!(points_for_lines(lines), expected[completed]);
    }
}

#[test]
fn completing_the_game_over_row_clears_it_for_one_point() {
    let mut board = Board::new();
    fill_row_except(&mut board, 19, Some(5));
    for y in 0..19 {
        fill_row_except(&mut board, y, Some(y % 5));
    }
    assert!(board.is_board_full());
    let dropped = Piece { piece_type: PieceType::TType, position: [c(5, 20), c(4, 20), c(5, 19), c(6, 20)] };
    let range = board.add_piece(&dropped);
    assert_eq!(range, 19..21);
    let lines = board.clear_lines(range);
    assert_eq!(lines, 1);
    assert_eq!(points_for_lines(lines), 1);
    assert_eq!(board.tetrimino_type_at(5, 19), TetriminoType::T);
    assert_eq!(board.tetrimino_type_at(4, 19), TetriminoType::T);
    assert_eq!(board.tetrimino_type_at(3, 19), TetriminoType::EmptySpace);
    // the cells of the piece above the cleared row come down into it
    assert!(board.is_board_full());
}

#[test]
fn board_full_when_game_over_row_is_taken() {
    let mut board = Board::new();
    board.add_tetrimino_at(9, 18, TetriminoType::O);
    assert!(!board.is_board_full());
    board.add_tetrimino_at(9, 19, TetriminoType::O);
    assert!(board.is_board_full());
}
