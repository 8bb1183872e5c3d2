use tetris_core::board::{is_within_walls, Board, Cell};
use tetris_core::piece::{Piece, PieceType};
use tetris_core::{BOARD_HEIGHT, BOARD_WIDTH};

#[test]
fn test_is_perfect_clear() {
    // Create an empty board
    let mut board = Board::new();

    // An empty board is a perfect clear
    assert!(board.is_perfect_clear());

    // Add a single block
    board.set_cell(10, 5, Cell::Filled(PieceType::T));

    // No longer a perfect clear
    assert!(!board.is_perfect_clear());

    // Clear the board
    board.clear();

    // Should be a perfect clear again
    assert!(board.is_perfect_clear());
}

fn fill_row(board: &mut Board, row: usize, except: &[usize]) {
    for col in 0..BOARD_WIDTH {
        if !except.contains(&col) {
            assert!(board.set_cell(row, col, Cell::Filled(PieceType::O)));
        }
    }
}

fn filled_cells(board: &Board) -> Vec<(usize, usize)> {
    let mut cells = Vec::new();
    for row in 0..BOARD_HEIGHT {
        for col in 0..BOARD_WIDTH {
            if board.get_cell(row, col) != Some(&Cell::Empty) {
                cells.push((row, col));
            }
        }
    }
    cells
}

#[test]
fn cells_are_read_and_written_inside_the_grid_only() {
    let mut board = Board::new();
    assert_eq!(board.get_cell(0, 0), Some(&Cell::Empty));
    assert_eq!(board.get_cell(21, 9), Some(&Cell::Empty));
    assert_eq!(board.get_cell(22, 0), None);
    assert_eq!(board.get_cell(0, 10), None);
    assert!(board.set_cell(21, 9, Cell::Filled(PieceType::Z)));
    assert_eq!(board.get_cell(21, 9), Some(&Cell::Filled(PieceType::Z)));
    assert!(!board.set_cell(22, 9, Cell::Filled(PieceType::Z)));
    assert!(!board.set_cell(21, 10, Cell::Filled(PieceType::Z)));
    assert_eq!(filled_cells(&board), vec![(21, 9)]);
    assert!(board.set_cell(21, 9, Cell::Empty));
    assert!(board.is_perfect_clear());
    assert_eq!(Cell::default(), Cell::Empty);
}

#[test]
fn a_piece_fits_on_empty_cells_of_the_grid() {
    let mut board = Board::new();
    let piece = Piece::new(PieceType::T, 5, 5);
    assert!(board.can_place(&piece));
    // A filled cell next to the piece does not matter.
    board.set_cell(6, 4, Cell::Filled(PieceType::I));
    assert!(board.can_place(&piece));
    // A filled cell under one of its blocks does.
    board.set_cell(6, 5, Cell::Filled(PieceType::I));
    assert!(!board.can_place(&piece));
}

#[test]
fn a_piece_outside_the_walls_or_below_the_floor_is_rejected() {
    let board = Board::new();
    // One block left of the grid.
    assert!(!board.can_place(&Piece::new(PieceType::T, 5, 0)));
    assert!(board.can_place(&Piece::new(PieceType::T, 5, 1)));
    // One block right of the grid.
    assert!(!board.can_place(&Piece::new(PieceType::T, 5, 9)));
    assert!(board.can_place(&Piece::new(PieceType::T, 5, 8)));
    // One block below the floor.
    assert!(!board.can_place(&Piece::new(PieceType::T, 21, 5)));
    assert!(board.can_place(&Piece::new(PieceType::T, 20, 5)));
    // All blocks far away.
    assert!(!board.can_place(&Piece::new(PieceType::O, 5, -7)));
    assert!(!board.can_place(&Piece::new(PieceType::O, 5, 30)));
    assert!(!board.can_place(&Piece::new(PieceType::O, 40, 5)));
    assert!(!board.can_place(&Piece::new(PieceType::O, i32::MAX, i32::MAX)));
    assert!(!board.can_place(&Piece::new(PieceType::O, i32::MIN, i32::MIN)));
}

#[test]
fn blocks_above_the_top_row_collide_with_nothing() {
    let mut board = Board::new();
    // The long shape where it is spawned: one row above the grid.
    assert!(board.can_place(&Piece::new(PieceType::I, -1, 4)));
    // The J shape in the top row has one block above the grid.
    assert!(board.can_place(&Piece::new(PieceType::J, 0, 4)));
    board.set_cell(0, 4, Cell::Filled(PieceType::O));
    assert!(board.can_place(&Piece::new(PieceType::I, -1, 4)));
    assert!(!board.can_place(&Piece::new(PieceType::J, 0, 4)));
    // Above the grid the walls still hold.
    assert!(!board.can_place(&Piece::new(PieceType::I, -1, 0)));
    assert!(!board.can_place(&Piece::new(PieceType::I, -1, 8)));
}

#[test]
fn placing_fills_the_blocks_with_the_shape() {
    let mut board = Board::new();
    let piece = Piece::new(PieceType::S, 20, 4);
    assert!(board.place_piece(&piece));
    assert_eq!(filled_cells(&board), vec![(20, 3), (20, 4), (21, 4), (21, 5)]);
    assert_eq!(board.get_cell(20, 3), Some(&Cell::Filled(PieceType::S)));
    assert_eq!(board.get_cell(21, 5), Some(&Cell::Filled(PieceType::S)));
    // The same piece does not fit a second time, and nothing changes.
    assert!(!board.place_piece(&piece));
    assert!(!board.place_piece(&Piece::new(PieceType::I, 21, 4)));
    assert_eq!(filled_cells(&board), vec![(20, 3), (20, 4), (21, 4), (21, 5)]);
    assert_eq!(board.get_cell(21, 4), Some(&Cell::Filled(PieceType::S)));
}

#[test]
fn placing_leaves_out_blocks_above_the_grid() {
    let mut board = Board::new();
    assert!(board.place_piece(&Piece::new(PieceType::J, 0, 4)));
    assert_eq!(filled_cells(&board), vec![(0, 3), (0, 4), (0, 5)]);
    assert!(board.place_piece(&Piece::new(PieceType::I, -1, 4)));
    assert_eq!(filled_cells(&board), vec![(0, 3), (0, 4), (0, 5)]);
}

#[test]
fn nothing_is_cleared_without_a_complete_row() {
    let mut board = Board::new();
    fill_row(&mut board, 21, &[9]);
    fill_row(&mut board, 20, &[0]);
    let before = filled_cells(&board);
    assert_eq!(board.clear_lines(), 0);
    assert_eq!(filled_cells(&board), before);
    assert_eq!(Board::new().clear_lines(), 0);
}

#[test]
fn two_complete_rows_at_the_bottom_are_both_cleared() {
    let mut board = Board::new();
    fill_row(&mut board, 20, &[]);
    fill_row(&mut board, 21, &[]);
    board.set_cell(19, 2, Cell::Filled(PieceType::T));
    board.set_cell(18, 7, Cell::Filled(PieceType::L));
    assert_eq!(board.clear_lines(), 2);
    // What lay above the two rows is two rows further down.
    assert_eq!(filled_cells(&board), vec![(20, 7), (21, 2)]);
    assert_eq!(board.get_cell(21, 2), Some(&Cell::Filled(PieceType::T)));
    assert_eq!(board.get_cell(20, 7), Some(&Cell::Filled(PieceType::L)));
    assert_eq!(board.clear_lines(), 0);
}

#[test]
fn complete_rows_apart_from_each_other_are_both_cleared() {
    let mut board = Board::new();
    fill_row(&mut board, 21, &[]);
    fill_row(&mut board, 20, &[3]);
    fill_row(&mut board, 19, &[]);
    board.set_cell(18, 0, Cell::Filled(PieceType::J));
    board.set_cell(17, 9, Cell::Filled(PieceType::S));
    assert_eq!(board.clear_lines(), 2);
    // The row between the two moved down by one, the rows above by two.
    let mut expected = vec![(19, 9), (20, 0)];
    for col in 0..BOARD_WIDTH {
        if col != 3 {
            expected.push((21, col));
        }
    }
    assert_eq!(filled_cells(&board), expected);
    assert_eq!(board.get_cell(20, 0), Some(&Cell::Filled(PieceType::J)));
    assert_eq!(board.get_cell(19, 9), Some(&Cell::Filled(PieceType::S)));
    assert_eq!(board.get_cell(21, 0), Some(&Cell::Filled(PieceType::O)));
}

#[test]
fn four_rows_are_cleared_at_once() {
    let mut board = Board::new();
    for row in 18..22 {
        fill_row(&mut board, row, &[]);
    }
    assert_eq!(board.clear_lines(), 4);
    assert!(board.is_perfect_clear());
}

#[test]
fn every_row_complete_leaves_an_empty_board() {
    let mut board = Board::new();
    for row in 0..BOARD_HEIGHT {
        fill_row(&mut board, row, &[]);
    }
    assert_eq!(board.clear_lines(), BOARD_HEIGHT);
    assert!(board.is_perfect_clear());
}

#[test]
fn top_row_blocks_when_it_holds_a_block() {
    let mut board = Board::new();
    assert!(!board.is_top_blocked());
    board.set_cell(1, 4, Cell::Filled(PieceType::I));
    assert!(!board.is_top_blocked());
    board.set_cell(0, 9, Cell::Filled(PieceType::I));
    assert!(board.is_top_blocked());
}

#[test]
fn a_copy_of_a_board_is_independent() {
    let mut board = Board::new();
    board.set_cell(3, 3, Cell::Filled(PieceType::Z));
    let copy = board.clone();
    board.set_cell(4, 4, Cell::Filled(PieceType::Z));
    assert_eq!(filled_cells(&copy), vec![(3, 3)]);
    assert_eq!(filled_cells(&board), vec![(3, 3), (4, 4)]);
}

#[test]
fn within_the_walls_means_between_them_and_above_the_floor() {
    assert!(is_within_walls(&Piece::new(PieceType::T, 5, 1)));
    assert!(!is_within_walls(&Piece::new(PieceType::T, 5, 0)));
    assert!(is_within_walls(&Piece::new(PieceType::T, 5, 8)));
    assert!(!is_within_walls(&Piece::new(PieceType::T, 5, 9)));
    assert!(is_within_walls(&Piece::new(PieceType::T, 20, 5)));
    assert!(!is_within_walls(&Piece::new(PieceType::T, 21, 5)));
    assert!(is_within_walls(&Piece::new(PieceType::T, -1000, 5)));
    assert!(is_within_walls(&Piece::new(PieceType::I, i32::MIN, 1)));
    assert!(!is_within_walls(&Piece::new(PieceType::I, 0, i32::MAX)));
}
