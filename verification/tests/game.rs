use tetris_core::board::{Board, Cell};
use tetris_core::game::{
    Game, GameState, INITIAL_GRAVITY_MS, LOCK_DELAY_MS, MAX_LOCK_RESETS, SPAWN_COLUMN,
};
use tetris_core::piece::{Piece, PieceType, Rotation};
use tetris_core::score::{ScoreSystem, TSpinType};
use tetris_core::{BOARD_HEIGHT, BOARD_WIDTH, VISIBLE_HEIGHT};

fn game_with(piece: Piece) -> Game {
    let mut game = Game::new();
    game.current_piece = Some(piece);
    game
}

fn turned(shape: PieceType, row: i32, col: i32, rotation: Rotation) -> Piece {
    Piece { piece_type: shape, row, col, rotation }
}

fn fill_row(board: &mut Board, row: usize, except: &[usize]) {
    for col in 0..BOARD_WIDTH {
        if !except.contains(&col) {
            board.set_cell(row, col, Cell::Filled(PieceType::O));
        }
    }
}

fn filled_cells(board: &Board) -> Vec<(usize, usize)> {
    let mut cells = Vec::new();
    for row in 0..BOARD_HEIGHT {
        for col in 0..BOARD_WIDTH {
            if board.get_cell(row, col) != Some(&Cell::Empty) {
                cells.push((row, col));
            }
        }
    }
    cells
}

fn spawn_row(shape: PieceType) -> i32 {
    if shape == PieceType::I {
        -1
    } else {
        0
    }
}

#[test]
fn constants_of_the_game() {
    assert_eq!(BOARD_WIDTH, 10);
    assert_eq!(BOARD_HEIGHT, 22);
    assert_eq!(VISIBLE_HEIGHT, 20);
    assert_eq!(LOCK_DELAY_MS, 500);
    assert_eq!(MAX_LOCK_RESETS, 15);
    assert_eq!(INITIAL_GRAVITY_MS, 1000);
    assert_eq!(SPAWN_COLUMN, 4);
}

#[test]
fn a_new_game_has_its_first_piece() {
    for _ in 0..20 {
        let game = Game::new();
        assert_eq!(game.state, GameState::Playing);
        let piece = game.current_piece.unwrap();
        assert_eq!(piece.rotation, Rotation::North);
        assert_eq!(piece.col, 4);
        assert_eq!(piece.row, spawn_row(piece.piece_type));
        assert_eq!(game.held_piece, None);
        assert!(game.can_hold);
        assert_eq!(game.score_system, ScoreSystem { score: 0, level: 1, lines_cleared: 0 });
        assert!(game.board.is_perfect_clear());
        assert_eq!(game.time_since_last_drop, 0);
        assert_eq!(game.gravity_delay, 1000);
        assert_eq!(game.lock_delay_timer, 0);
        assert!(!game.lock_delay_active);
        assert_eq!(game.lock_delay_resets, 0);
        // The active piece and the queue come from one bag.
        let mut shapes = game.peek_next_pieces(5);
        assert_eq!(shapes.len(), 5);
        shapes.push(piece.piece_type);
        for i in 0..shapes.len() {
            for j in 0..i {
                assert_ne!(shapes[i], shapes[j]);
            }
        }
    }
}

#[test]
fn peek_shows_upcoming_shapes() {
    let game = Game::new();
    let queue = game.peek_next_pieces(5);
    assert_eq!(game.peek_next_pieces(0), vec![]);
    assert_eq!(game.peek_next_pieces(3), queue[..3].to_vec());
    assert_eq!(game.peek_next_pieces(9), queue);
}

#[test]
fn moves_to_the_side_stop_at_the_walls() {
    let mut game = game_with(Piece::new(PieceType::T, 5, 5));
    for col in (1..5).rev() {
        assert!(game.move_left());
        assert_eq!(game.current_piece, Some(Piece::new(PieceType::T, 5, col)));
    }
    assert!(!game.move_left());
    assert_eq!(game.current_piece, Some(Piece::new(PieceType::T, 5, 1)));
    for col in 2..9 {
        assert!(game.move_right());
        assert_eq!(game.current_piece, Some(Piece::new(PieceType::T, 5, col)));
    }
    assert!(!game.move_right());
    assert_eq!(game.current_piece, Some(Piece::new(PieceType::T, 5, 8)));
    assert_eq!(game.score_system.score, 0);
    assert!(!game.lock_delay_active);
}

#[test]
fn moves_to_the_side_stop_at_filled_cells() {
    let mut game = game_with(Piece::new(PieceType::O, 10, 4));
    game.board.set_cell(11, 3, Cell::Filled(PieceType::I));
    game.board.set_cell(10, 7, Cell::Filled(PieceType::I));
    assert!(!game.move_left());
    assert!(game.move_right());
    assert!(!game.move_right());
    assert_eq!(game.current_piece, Some(Piece::new(PieceType::O, 10, 5)));
}

#[test]
fn soft_drop_earns_a_point_a_row() {
    let mut game = game_with(Piece::new(PieceType::T, 17, 5));
    assert!(game.move_down());
    assert!(game.move_down());
    assert!(game.move_down());
    assert_eq!(game.current_piece, Some(Piece::new(PieceType::T, 20, 5)));
    assert_eq!(game.score_system.score, 3);
    assert!(!game.lock_delay_active);
    // On the floor the piece stays, and the lock delay starts.
    assert!(!game.move_down());
    assert_eq!(game.current_piece, Some(Piece::new(PieceType::T, 20, 5)));
    assert_eq!(game.score_system.score, 3);
    assert!(game.lock_delay_active);
    assert_eq!(game.lock_delay_timer, 0);
    assert_eq!(game.lock_delay_resets, 0);
    assert!(game.board.is_perfect_clear());
}

#[test]
fn soft_drop_on_the_floor_keeps_a_running_lock_delay() {
    let mut game = game_with(Piece::new(PieceType::T, 20, 5));
    assert!(!game.move_down());
    assert!(game.update(100));
    assert!(game.move_left());
    assert_eq!((game.lock_delay_timer, game.lock_delay_resets), (0, 1));
    assert!(game.update(100));
    assert!(!game.move_down());
    assert!(game.lock_delay_active);
    assert_eq!((game.lock_delay_timer, game.lock_delay_resets), (100, 1));
}

#[test]
fn turns_take_the_first_kick_that_fits() {
    let mut game = game_with(Piece::new(PieceType::T, 5, 5));
    assert!(game.rotate_clockwise());
    assert_eq!(game.current_piece, Some(turned(PieceType::T, 5, 5, Rotation::East)));
    assert!(game.rotate_counterclockwise());
    assert!(game.rotate_counterclockwise());
    assert_eq!(game.current_piece, Some(turned(PieceType::T, 5, 5, Rotation::West)));

    let mut game = game_with(turned(PieceType::I, 5, 9, Rotation::West));
    assert!(game.rotate_clockwise());
    assert_eq!(game.current_piece, Some(turned(PieceType::I, 6, 7, Rotation::North)));

    let mut game = game_with(Piece::new(PieceType::I, 21, 5));
    assert!(!game.rotate_clockwise());
    assert_eq!(game.current_piece, Some(Piece::new(PieceType::I, 21, 5)));
}

#[test]
fn hard_drop_earns_two_points_a_row_and_locks() {
    let mut game = game_with(Piece::new(PieceType::T, 0, 4));
    let next = game.peek_next_pieces(2);
    game.can_hold = false;
    assert!(game.hard_drop());
    assert_eq!(game.score_system, ScoreSystem { score: 40, level: 1, lines_cleared: 0 });
    assert_eq!(filled_cells(&game.board), vec![(20, 3), (20, 4), (20, 5), (21, 4)]);
    assert_eq!(game.board.get_cell(21, 4), Some(&Cell::Filled(PieceType::T)));
    assert_eq!(game.current_piece, Some(Piece::new(next[0], spawn_row(next[0]), 4)));
    assert_eq!(game.peek_next_pieces(1), vec![next[1]]);
    assert!(game.can_hold);
    assert_eq!(game.state, GameState::Playing);
    assert!(!game.lock_delay_active);
}

#[test]
fn hard_drop_rests_on_the_stack() {
    let mut game = game_with(Piece::new(PieceType::O, 0, 4));
    game.board.set_cell(15, 5, Cell::Filled(PieceType::I));
    assert!(game.hard_drop());
    assert_eq!(game.score_system.score, 26);
    assert_eq!(filled_cells(&game.board), vec![(13, 4), (13, 5), (14, 4), (14, 5), (15, 5)]);
}

#[test]
fn hold_keeps_the_shape_and_brings_the_next_piece() {
    let mut game = game_with(Piece::new(PieceType::T, 7, 2));
    let queue = game.peek_next_pieces(5);
    assert!(game.hold_piece());
    assert_eq!(game.held_piece, Some(PieceType::T));
    assert_eq!(game.current_piece, Some(Piece::new(queue[0], spawn_row(queue[0]), 4)));
    assert!(!game.can_hold);
    assert_eq!(game.peek_next_pieces(4), queue[1..].to_vec());
    // A second hold before the next lock is rejected.
    assert!(!game.hold_piece());
    assert_eq!(game.held_piece, Some(PieceType::T));
    assert_eq!(game.current_piece, Some(Piece::new(queue[0], spawn_row(queue[0]), 4)));
    assert_eq!(game.peek_next_pieces(4), queue[1..].to_vec());
}

#[test]
fn hold_swaps_with_the_held_shape_after_a_lock() {
    let mut game = game_with(Piece::new(PieceType::I, 3, 4));
    assert!(game.hold_piece());
    assert!(game.hard_drop());
    assert!(game.can_hold);
    let active = game.current_piece.unwrap();
    let queue = game.peek_next_pieces(5);
    game.current_piece = Some(turned(active.piece_type, 9, 6, Rotation::South));
    assert!(game.hold_piece());
    // The long shape comes back one row above the grid, facing North.
    assert_eq!(game.current_piece, Some(Piece::new(PieceType::I, -1, 4)));
    assert_eq!(game.held_piece, Some(active.piece_type));
    assert!(!game.can_hold);
    // A swap draws nothing.
    assert_eq!(game.peek_next_pieces(5), queue);
}

#[test]
fn hold_swap_brings_other_shapes_to_the_top_row() {
    let mut game = game_with(Piece::new(PieceType::Z, 12, 7));
    game.held_piece = Some(PieceType::L);
    assert!(game.hold_piece());
    assert_eq!(game.current_piece, Some(Piece::new(PieceType::L, 0, 4)));
    assert_eq!(game.held_piece, Some(PieceType::Z));
}

#[test]
fn hold_without_a_piece_is_rejected() {
    let mut game = Game::new();
    game.current_piece = None;
    assert!(!game.hold_piece());
    assert_eq!(game.held_piece, None);
    assert!(game.can_hold);
}

#[test]
fn gravity_moves_the_piece_once_its_interval_has_passed() {
    let mut game = game_with(Piece::new(PieceType::T, 5, 5));
    assert!(game.update(999));
    assert_eq!(game.current_piece, Some(Piece::new(PieceType::T, 5, 5)));
    assert_eq!(game.time_since_last_drop, 999);
    assert!(game.update(1));
    assert_eq!(game.current_piece, Some(Piece::new(PieceType::T, 6, 5)));
    assert_eq!(game.time_since_last_drop, 0);
    // However long a step takes, the piece falls by one row.
    assert!(game.update(5000));
    assert_eq!(game.current_piece, Some(Piece::new(PieceType::T, 7, 5)));
    assert_eq!(game.score_system.score, 0);
    assert!(!game.lock_delay_active);
}

#[test]
fn gravity_follows_the_gravity_delay() {
    let mut game = game_with(Piece::new(PieceType::T, 5, 5));
    game.gravity_delay = 100;
    assert!(game.update(99));
    assert!(game.update(1));
    assert!(game.update(100));
    assert_eq!(game.current_piece, Some(Piece::new(PieceType::T, 7, 5)));
}

#[test]
fn gravity_starts_the_lock_delay_on_the_floor() {
    let mut game = game_with(Piece::new(PieceType::O, 20, 4));
    assert!(game.update(400));
    assert!(!game.lock_delay_active);
    game.gravity_delay = 450;
    // The step that starts the delay counts towards it.
    assert!(game.update(60));
    assert!(game.lock_delay_active);
    assert_eq!(game.lock_delay_timer, 60);
    assert_eq!(game.current_piece, Some(Piece::new(PieceType::O, 20, 4)));
    assert!(game.board.is_perfect_clear());
    assert!(game.update(439));
    assert!(game.board.is_perfect_clear());
    assert!(game.update(1));
    assert_eq!(filled_cells(&game.board), vec![(20, 4), (20, 5), (21, 4), (21, 5)]);
    assert!(!game.lock_delay_active);
    assert_eq!(game.lock_delay_timer, 0);
}

#[test]
fn a_long_step_starts_the_lock_delay_and_ends_it() {
    let mut game = game_with(Piece::new(PieceType::O, 20, 4));
    assert!(game.update(1000));
    assert_eq!(filled_cells(&game.board), vec![(20, 4), (20, 5), (21, 4), (21, 5)]);
    assert!(!game.lock_delay_active);
}

#[test]
fn gravity_that_moves_the_piece_ends_the_lock_delay() {
    let mut game = game_with(Piece::new(PieceType::O, 10, 4));
    game.board.set_cell(12, 4, Cell::Filled(PieceType::I));
    assert!(!game.move_down());
    assert!(game.lock_delay_active);
    assert!(game.update(300));
    assert_eq!(game.lock_delay_timer, 300);
    // Moved off the stack, the piece falls again with the next step of gravity.
    assert!(game.move_right());
    assert!(game.move_right());
    assert_eq!(game.lock_delay_resets, 2);
    assert!(game.update(700));
    assert_eq!(game.current_piece, Some(Piece::new(PieceType::O, 11, 6)));
    assert!(!game.lock_delay_active);
    assert_eq!(game.lock_delay_timer, 0);
}

#[test]
fn lock_delay_is_restarted_fifteen_times_and_no_more() {
    let mut game = game_with(Piece::new(PieceType::T, 20, 5));
    assert!(!game.move_down());
    assert!(game.lock_delay_active);
    for reset in 1..=15u8 {
        assert!(game.update(10));
        assert_eq!(game.lock_delay_timer, 10);
        let moved = if reset % 2 == 1 {
            game.move_left()
        } else {
            game.move_right()
        };
        assert!(moved);
        assert_eq!(game.lock_delay_timer, 0);
        assert_eq!(game.lock_delay_resets, reset);
    }
    // The sixteenth move is made, but the delay runs on.
    assert!(game.update(100));
    assert!(game.move_right());
    assert_eq!(game.current_piece, Some(Piece::new(PieceType::T, 20, 5)));
    assert_eq!(game.lock_delay_timer, 100);
    assert_eq!(game.lock_delay_resets, 15);
    assert!(game.rotate_clockwise());
    assert_eq!(game.lock_delay_timer, 100);
    assert_eq!(game.lock_delay_resets, 15);
    assert!(game.rotate_counterclockwise());
    // The piece locks when the delay has reached half a second.
    assert!(game.update(399));
    assert!(game.lock_delay_active);
    assert_eq!(game.lock_delay_timer, 499);
    assert!(game.board.is_perfect_clear());
    assert!(game.update(1));
    assert_eq!(filled_cells(&game.board), vec![(20, 4), (20, 5), (20, 6), (21, 5)]);
    assert!(!game.lock_delay_active);
    assert_eq!(game.lock_delay_timer, 0);
    assert!(game.current_piece.is_some());
}

#[test]
fn turns_restart_the_lock_delay_too() {
    let mut game = game_with(Piece::new(PieceType::T, 20, 5));
    assert!(!game.move_down());
    assert!(game.update(200));
    assert!(game.rotate_clockwise());
    assert_eq!((game.lock_delay_timer, game.lock_delay_resets), (0, 1));
    assert!(game.update(200));
    assert!(game.rotate_counterclockwise());
    assert_eq!((game.lock_delay_timer, game.lock_delay_resets), (0, 2));
    // A rejected move restarts nothing.
    assert!(game.update(200));
    game.board.set_cell(20, 3, Cell::Filled(PieceType::I));
    assert!(!game.move_left());
    assert_eq!((game.lock_delay_timer, game.lock_delay_resets), (200, 2));
}

#[test]
fn moves_do_not_start_the_lock_delay() {
    let mut game = game_with(Piece::new(PieceType::T, 20, 5));
    assert!(game.move_left());
    assert!(game.rotate_clockwise());
    assert!(!game.lock_delay_active);
    assert_eq!(game.lock_delay_resets, 0);
}

#[test]
fn a_paused_game_does_not_change_with_time() {
    let mut game = game_with(Piece::new(PieceType::T, 5, 5));
    game.toggle_pause();
    assert_eq!(game.state, GameState::Paused);
    assert!(!game.update(5000));
    assert_eq!(game.current_piece, Some(Piece::new(PieceType::T, 5, 5)));
    assert_eq!(game.time_since_last_drop, 0);
    game.toggle_pause();
    assert_eq!(game.state, GameState::Playing);
    assert!(game.update(1000));
    assert_eq!(game.current_piece, Some(Piece::new(PieceType::T, 6, 5)));
}

#[test]
fn single_line_without_spin_scores_100() {
    let mut game = game_with(Piece::new(PieceType::I, 21, 4));
    fill_row(&mut game.board, 21, &[3, 4, 5, 6]);
    game.board.set_cell(20, 0, Cell::Filled(PieceType::J));
    assert!(game.hard_drop());
    assert_eq!(game.score_system, ScoreSystem { score: 100, level: 1, lines_cleared: 1 });
    assert_eq!(filled_cells(&game.board), vec![(21, 0)]);
}

#[test]
fn lines_without_spin_score_by_their_number() {
    for (lines, points) in [(2usize, 300u32), (3, 500), (4, 800)] {
        let mut game = game_with(turned(PieceType::I, 19, 0, Rotation::West));
        for row in (22 - lines)..22 {
            fill_row(&mut game.board, row, &[0]);
        }
        game.board.set_cell(17, 9, Cell::Filled(PieceType::J));
        assert!(game.hard_drop());
        assert_eq!(game.score_system.score, points);
        assert_eq!(game.score_system.lines_cleared, lines as u32);
        // The block above the stack came down with the lines, and what is
        // left of the long piece stands in the left column.
        assert_eq!(game.board.get_cell(17 + lines, 9), Some(&Cell::Filled(PieceType::J)));
        assert_eq!(filled_cells(&game.board).len(), 1 + 4 - lines);
    }
}

#[test]
fn full_spin_double_scores_1200() {
    let mut game = game_with(Piece::new(PieceType::T, 20, 4));
    fill_row(&mut game.board, 21, &[4]);
    fill_row(&mut game.board, 20, &[3, 4, 5]);
    game.board.set_cell(19, 3, Cell::Filled(PieceType::J));
    assert_eq!(game.detect_tspin(), TSpinType::Full);
    assert!(game.hard_drop());
    assert_eq!(game.score_system, ScoreSystem { score: 1200, level: 1, lines_cleared: 2 });
    assert_eq!(filled_cells(&game.board), vec![(21, 3)]);
}

#[test]
fn full_spin_without_lines_scores_400() {
    let mut game = game_with(Piece::new(PieceType::T, 20, 4));
    game.board.set_cell(21, 3, Cell::Filled(PieceType::J));
    game.board.set_cell(21, 5, Cell::Filled(PieceType::J));
    game.board.set_cell(19, 5, Cell::Filled(PieceType::J));
    assert_eq!(game.detect_tspin(), TSpinType::Full);
    assert!(game.hard_drop());
    assert_eq!(game.score_system, ScoreSystem { score: 400, level: 1, lines_cleared: 0 });
}

#[test]
fn two_filled_corners_are_no_spin() {
    let mut game = game_with(Piece::new(PieceType::T, 20, 4));
    game.board.set_cell(21, 3, Cell::Filled(PieceType::J));
    game.board.set_cell(21, 5, Cell::Filled(PieceType::J));
    assert_eq!(game.detect_tspin(), TSpinType::NoSpin);
    assert!(game.hard_drop());
    assert_eq!(game.score_system.score, 0);
}

#[test]
fn only_the_t_shape_spins() {
    let mut game = game_with(Piece::new(PieceType::L, 20, 4));
    for (row, col) in [(19, 3), (19, 5), (21, 3), (21, 5)] {
        game.board.set_cell(row, col, Cell::Filled(PieceType::J));
    }
    assert_eq!(game.detect_tspin(), TSpinType::NoSpin);
    game.current_piece = None;
    assert_eq!(game.detect_tspin(), TSpinType::NoSpin);
}

#[test]
fn corners_outside_the_grid_count_as_filled() {
    // Facing East at the left wall: both corners in front lie in the wall.
    let mut game = game_with(turned(PieceType::T, 20, 0, Rotation::East));
    assert_eq!(game.detect_tspin(), TSpinType::NoSpin);
    game.board.set_cell(21, 1, Cell::Filled(PieceType::J));
    assert_eq!(game.detect_tspin(), TSpinType::Full);
    // In the top row the corners above lie outside the grid.
    let mut game = game_with(turned(PieceType::T, 0, 4, Rotation::South));
    assert_eq!(game.detect_tspin(), TSpinType::NoSpin);
    game.board.set_cell(1, 5, Cell::Filled(PieceType::J));
    assert_eq!(game.detect_tspin(), TSpinType::Full);
    // On the floor, stem up, the corners below lie outside the grid.
    let mut game = game_with(turned(PieceType::T, 21, 4, Rotation::South));
    game.board.set_cell(20, 3, Cell::Filled(PieceType::J));
    assert_eq!(game.detect_tspin(), TSpinType::Full);
    // Far outside the grid every corner counts as filled.
    let game = game_with(turned(PieceType::T, i32::MIN, 4, Rotation::South));
    assert_eq!(game.detect_tspin(), TSpinType::Full);
}

#[test]
fn perfect_clear_of_four_lines_scores_800_and_2000() {
    let mut game = game_with(turned(PieceType::I, 19, 0, Rotation::West));
    for row in 18..22 {
        fill_row(&mut game.board, row, &[0]);
    }
    assert!(game.hard_drop());
    assert_eq!(game.score_system, ScoreSystem { score: 2800, level: 1, lines_cleared: 4 });
    assert!(game.board.is_perfect_clear());
}

#[test]
fn perfect_clear_of_one_line_scores_100_and_800() {
    let mut game = game_with(Piece::new(PieceType::I, 21, 4));
    fill_row(&mut game.board, 21, &[3, 4, 5, 6]);
    assert!(game.hard_drop());
    assert_eq!(game.score_system, ScoreSystem { score: 900, level: 1, lines_cleared: 1 });
}

#[test]
fn a_piece_that_locks_above_the_grid_leaves_no_blocks() {
    let mut game = game_with(Piece::new(PieceType::I, -1, 4));
    game.board.set_cell(0, 4, Cell::Filled(PieceType::O));
    assert!(game.hard_drop());
    assert_eq!(game.score_system.score, 0);
    assert_eq!(filled_cells(&game.board), vec![(0, 4)]);
}

#[test]
fn the_level_sets_the_gravity_delay() {
    let mut game = game_with(Piece::new(PieceType::I, 21, 4));
    game.score_system.lines_cleared = 9;
    fill_row(&mut game.board, 21, &[3, 4, 5, 6]);
    game.board.set_cell(20, 0, Cell::Filled(PieceType::J));
    assert_eq!(game.gravity_delay, 1000);
    assert!(game.hard_drop());
    assert_eq!(game.score_system, ScoreSystem { score: 100, level: 2, lines_cleared: 10 });
    assert_eq!(game.gravity_delay, 800);
}

#[test]
fn gravity_delay_by_level() {
    let table = [
        (1, 1000),
        (2, 800),
        (3, 600),
        (4, 466),
        (5, 366),
        (6, 266),
        (7, 200),
        (8, 133),
        (9, 100),
        (10, 66),
        (12, 66),
        (13, 50),
        (15, 50),
        (16, 33),
        (18, 33),
        (19, 16),
        (28, 16),
        (29, 16),
        (1000, 16),
        (u32::MAX, 16),
        (0, 16),
    ];
    for (level, delay) in table {
        assert_eq!(Game::calculate_gravity_delay(level), delay);
    }
}

#[test]
fn a_piece_that_cannot_appear_ends_the_game() {
    let mut game = game_with(Piece::new(PieceType::O, 20, 0));
    let mut next = game.peek_next_pieces(1)[0];
    if next == PieceType::I {
        // The long shape appears above the grid; let it pass.
        assert!(game.hard_drop());
        assert_eq!(game.current_piece, Some(Piece::new(PieceType::I, -1, 4)));
        game.current_piece = Some(Piece::new(PieceType::O, 18, 0));
        next = game.peek_next_pieces(1)[0];
    }
    assert_ne!(next, PieceType::I);
    for col in 3..7 {
        game.board.set_cell(0, col, Cell::Filled(PieceType::Z));
    }
    assert!(game.hard_drop());
    assert_eq!(game.state, GameState::GameOver);
    assert_eq!(game.current_piece, None);
    // Nothing is accepted any more.
    let score = game.score_system;
    let cells = filled_cells(&game.board);
    assert!(!game.move_left());
    assert!(!game.move_right());
    assert!(!game.move_down());
    assert!(!game.rotate_clockwise());
    assert!(!game.rotate_counterclockwise());
    assert!(!game.hard_drop());
    assert!(!game.hold_piece());
    assert!(!game.update(10_000));
    game.toggle_pause();
    assert_eq!(game.state, GameState::GameOver);
    assert_eq!(game.current_piece, None);
    assert_eq!(game.score_system, score);
    assert_eq!(filled_cells(&game.board), cells);
    assert!(!game.lock_delay_active);
}

#[test]
fn the_long_shape_appears_above_a_blocked_top_row() {
    let mut game = Game::new();
    while game.peek_next_pieces(1)[0] != PieceType::I {
        game.current_piece = Some(Piece::new(PieceType::O, 20, 0));
        assert!(game.hard_drop());
        game.board.clear();
    }
    game.current_piece = Some(Piece::new(PieceType::O, 20, 0));
    for col in 0..BOARD_WIDTH - 1 {
        game.board.set_cell(0, col, Cell::Filled(PieceType::Z));
    }
    assert!(game.hard_drop());
    assert_eq!(game.state, GameState::Playing);
    assert_eq!(game.current_piece, Some(Piece::new(PieceType::I, -1, 4)));
}

#[test]
fn reset_starts_anew() {
    let mut game = game_with(Piece::new(PieceType::T, 0, 4));
    game.hold_piece();
    game.hard_drop();
    game.move_down();
    game.update(300);
    game.toggle_pause();
    game.reset();
    assert_eq!(game.state, GameState::Playing);
    let piece = game.current_piece.unwrap();
    assert_eq!(piece, Piece::new(piece.piece_type, spawn_row(piece.piece_type), 4));
    assert_eq!(game.held_piece, None);
    assert!(game.can_hold);
    assert_eq!(game.score_system, ScoreSystem { score: 0, level: 1, lines_cleared: 0 });
    assert!(game.board.is_perfect_clear());
    assert_eq!(game.time_since_last_drop, 0);
    assert_eq!(game.gravity_delay, 1000);
    assert_eq!(game.lock_delay_timer, 0);
    assert!(!game.lock_delay_active);
    assert_eq!(game.lock_delay_resets, 0);
    assert_eq!(game.peek_next_pieces(5).len(), 5);
}

#[test]
fn reset_leaves_game_over() {
    let mut game = Game::new();
    game.state = GameState::GameOver;
    game.current_piece = None;
    game.reset();
    assert_eq!(game.state, GameState::Playing);
    assert!(game.current_piece.is_some());
}

#[test]
fn a_copy_of_a_game_is_independent() {
    let mut game = game_with(Piece::new(PieceType::S, 0, 4));
    let queue = game.peek_next_pieces(5);
    let mut copy = game.clone();
    assert!(copy.hold_piece());
    assert!(copy.hard_drop());
    assert!(copy.hard_drop());
    assert!(copy.update(700));
    assert_eq!(game.current_piece, Some(Piece::new(PieceType::S, 0, 4)));
    assert!(game.board.is_perfect_clear());
    assert_eq!(game.held_piece, None);
    assert_eq!(game.score_system.score, 0);
    assert_eq!(game.peek_next_pieces(5), queue);
    assert_eq!(game.time_since_last_drop, 0);
    // The game goes the way its copy went, as far as that is decided.
    assert!(game.hold_piece());
    assert!(game.hard_drop());
    assert!(game.hard_drop());
    assert_eq!(filled_cells(&game.board), filled_cells(&copy.board));
    assert_eq!(game.score_system, copy.score_system);
    assert_eq!(game.current_piece, copy.current_piece);
}

#[test]
fn timers_stop_at_their_largest_value() {
    let mut game = game_with(Piece::new(PieceType::T, 5, 5));
    game.gravity_delay = u64::MAX;
    game.time_since_last_drop = u64::MAX - 5;
    assert!(game.update(3));
    assert_eq!(game.time_since_last_drop, u64::MAX - 2);
    assert_eq!(game.current_piece, Some(Piece::new(PieceType::T, 5, 5)));
    assert!(game.update(100));
    assert_eq!(game.current_piece, Some(Piece::new(PieceType::T, 6, 5)));
    assert_eq!(game.time_since_last_drop, 0);
}

#[test]
fn games_made_by_actions_are_well_formed() {
    let mut game = Game::new();
    assert!(game.is_well_formed());
    for step in 0..200u32 {
        match step % 7 {
            0 => {
                game.move_left();
            }
            1 => {
                game.rotate_clockwise();
            }
            2 => {
                game.move_down();
            }
            3 => {
                game.hold_piece();
            }
            4 => {
                game.update(350);
            }
            5 => {
                game.move_right();
            }
            _ => {
                game.hard_drop();
            }
        }
        assert!(game.is_well_formed());
        assert_eq!(game.current_piece.is_none(), game.state == GameState::GameOver);
        assert!(game.lock_delay_resets <= MAX_LOCK_RESETS);
    }
}

#[test]
fn writes_to_the_fields_can_break_the_invariant() {
    let mut game = game_with(Piece::new(PieceType::T, 5, 0));
    assert!(!game.is_well_formed());
    game.current_piece = Some(Piece::new(PieceType::T, 21, 5));
    assert!(!game.is_well_formed());
    game.current_piece = Some(Piece::new(PieceType::T, -30, 5));
    assert!(game.is_well_formed());
    game.state = GameState::GameOver;
    assert!(!game.is_well_formed());
    game.current_piece = None;
    assert!(game.is_well_formed());
    game.lock_delay_resets = 16;
    assert!(!game.is_well_formed());
    game.lock_delay_resets = 15;
    game.state = GameState::Playing;
    assert!(game.is_well_formed());
    // A piece on filled cells breaks nothing: a hold can lead there.
    game.current_piece = Some(Piece::new(PieceType::O, 0, 4));
    game.board.set_cell(0, 4, Cell::Filled(PieceType::I));
    assert!(game.is_well_formed());
}

#[test]
fn restarting_the_lock_delay_by_hand() {
    let mut game = game_with(Piece::new(PieceType::T, 20, 5));
    // Not running: nothing to restart.
    game.lock_delay_timer = 70;
    game.try_reset_lock_delay();
    assert_eq!((game.lock_delay_active, game.lock_delay_timer, game.lock_delay_resets), (false, 70, 0));
    game.lock_delay_active = true;
    for restart in 1..=15u8 {
        game.lock_delay_timer = 70;
        game.try_reset_lock_delay();
        assert_eq!((game.lock_delay_timer, game.lock_delay_resets), (0, restart));
    }
    // The sixteenth time the timer runs on.
    game.lock_delay_timer = 70;
    game.try_reset_lock_delay();
    assert_eq!((game.lock_delay_active, game.lock_delay_timer, game.lock_delay_resets), (true, 70, 15));
    assert_eq!(game.current_piece, Some(Piece::new(PieceType::T, 20, 5)));
    assert!(game.board.is_perfect_clear());
    assert_eq!(game.score_system.score, 0);
}
