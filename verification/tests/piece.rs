use tetris_core::piece::{Piece, PieceType, Rotation};

const SHAPES: [PieceType; 7] = [
    PieceType::I,
    PieceType::O,
    PieceType::T,
    PieceType::S,
    PieceType::Z,
    PieceType::J,
    PieceType::L,
];

const ROTATIONS: [Rotation; 4] = [Rotation::North, Rotation::East, Rotation::South, Rotation::West];

#[test]
fn rotation_steps_clockwise() {
    assert_eq!(Rotation::North.rotate_cw(), Rotation::East);
    assert_eq!(Rotation::East.rotate_cw(), Rotation::South);
    assert_eq!(Rotation::South.rotate_cw(), Rotation::West);
    assert_eq!(Rotation::West.rotate_cw(), Rotation::North);
}

#[test]
fn rotation_steps_counterclockwise() {
    assert_eq!(Rotation::North.rotate_ccw(), Rotation::West);
    assert_eq!(Rotation::West.rotate_ccw(), Rotation::South);
    assert_eq!(Rotation::South.rotate_ccw(), Rotation::East);
    assert_eq!(Rotation::East.rotate_ccw(), Rotation::North);
}

#[test]
fn rotation_index_counts_from_north() {
    assert_eq!(Rotation::North.to_index(), 0);
    assert_eq!(Rotation::East.to_index(), 1);
    assert_eq!(Rotation::South.to_index(), 2);
    assert_eq!(Rotation::West.to_index(), 3);
}

#[test]
fn four_turns_of_an_orientation_return() {
    for &rotation in &ROTATIONS {
        assert_eq!(rotation.rotate_cw().rotate_cw().rotate_cw().rotate_cw(), rotation);
        assert_eq!(rotation.rotate_ccw().rotate_ccw().rotate_ccw().rotate_ccw(), rotation);
        assert_eq!(rotation.rotate_cw().rotate_ccw(), rotation);
        assert_eq!(rotation.rotate_ccw().rotate_cw(), rotation);
    }
}

#[test]
fn new_piece_faces_north() {
    let piece = Piece::new(PieceType::S, 3, -2);
    assert_eq!(piece.piece_type, PieceType::S);
    assert_eq!(piece.row, 3);
    assert_eq!(piece.col, -2);
    assert_eq!(piece.rotation, Rotation::North);
}

#[test]
fn blocks_follow_the_table_facing_north() {
    assert_eq!(Piece::new(PieceType::I, 5, 5).get_blocks(), vec![(5, 4), (5, 5), (5, 6), (5, 7)]);
    assert_eq!(Piece::new(PieceType::O, 5, 5).get_blocks(), vec![(5, 5), (5, 6), (6, 5), (6, 6)]);
    assert_eq!(Piece::new(PieceType::T, 5, 5).get_blocks(), vec![(5, 5), (5, 4), (5, 6), (6, 5)]);
    assert_eq!(Piece::new(PieceType::S, 5, 5).get_blocks(), vec![(5, 5), (5, 4), (6, 5), (6, 6)]);
    assert_eq!(Piece::new(PieceType::Z, 5, 5).get_blocks(), vec![(5, 5), (5, 6), (6, 5), (6, 4)]);
    assert_eq!(Piece::new(PieceType::J, 5, 5).get_blocks(), vec![(5, 5), (5, 4), (5, 6), (4, 6)]);
    assert_eq!(Piece::new(PieceType::L, 5, 5).get_blocks(), vec![(5, 5), (5, 4), (5, 6), (6, 6)]);
}

#[test]
fn blocks_follow_the_table_when_turned() {
    let mut long = Piece::new(PieceType::I, 5, 5);
    long.rotate_clockwise();
    assert_eq!(long.get_blocks(), vec![(4, 6), (5, 6), (6, 6), (7, 6)]);
    long.rotate_clockwise();
    assert_eq!(long.get_blocks(), vec![(6, 4), (6, 5), (6, 6), (6, 7)]);
    long.rotate_clockwise();
    assert_eq!(long.get_blocks(), vec![(4, 5), (5, 5), (6, 5), (7, 5)]);

    let mut tee = Piece::new(PieceType::T, 5, 5);
    tee.rotate_counterclockwise();
    assert_eq!(tee.rotation, Rotation::West);
    assert_eq!(tee.get_blocks(), vec![(5, 5), (4, 5), (6, 5), (5, 4)]);
    tee.rotate_counterclockwise();
    assert_eq!(tee.get_blocks(), vec![(5, 5), (5, 4), (5, 6), (4, 5)]);
}

#[test]
fn every_shape_has_four_blocks_in_every_orientation() {
    for &shape in &SHAPES {
        let mut piece = Piece::new(shape, 10, 5);
        for _ in 0..4 {
            let mut blocks = piece.get_blocks();
            assert_eq!(blocks.len(), 4);
            blocks.sort();
            blocks.dedup();
            assert_eq!(blocks.len(), 4);
            let offsets = piece.get_block_offsets();
            for (block, offset) in blocks_in_order(&piece).iter().zip(offsets.iter()) {
                assert_eq!(block.0 as i32, 10 + offset.0);
                assert_eq!(block.1 as i32, 5 + offset.1);
            }
            piece.rotate_clockwise();
        }
    }
}

fn blocks_in_order(piece: &Piece) -> Vec<(usize, usize)> {
    piece.get_blocks()
}

#[test]
fn blocks_with_negative_coordinates_are_left_out() {
    // The long shape one row above the grid has no block on it.
    assert_eq!(Piece::new(PieceType::I, -1, 4).get_blocks(), vec![]);
    // The T shape at the left wall loses the block left of the grid.
    assert_eq!(Piece::new(PieceType::T, 5, 0).get_blocks(), vec![(5, 0), (5, 1), (6, 0)]);
    // The J shape in the top row loses the block above the grid.
    assert_eq!(Piece::new(PieceType::J, 0, 4).get_blocks(), vec![(0, 4), (0, 3), (0, 5)]);
}

#[test]
fn blocks_near_the_limits_of_the_coordinates() {
    let far = Piece::new(PieceType::O, i32::MAX, i32::MAX);
    let max = i32::MAX as usize;
    assert_eq!(
        far.get_blocks(),
        vec![(max, max), (max, max + 1), (max + 1, max), (max + 1, max + 1)]
    );
    assert_eq!(Piece::new(PieceType::O, i32::MIN, i32::MIN).get_blocks(), vec![]);
}

#[test]
fn square_shape_keeps_its_blocks_in_every_orientation() {
    let mut piece = Piece::new(PieceType::O, 7, 3);
    let blocks = piece.get_blocks();
    for _ in 0..4 {
        piece.rotate_clockwise();
        assert_eq!(piece.get_blocks(), blocks);
    }
    for _ in 0..4 {
        piece.rotate_counterclockwise();
        assert_eq!(piece.get_blocks(), blocks);
    }
}

#[test]
fn moves_change_the_pivot_only() {
    let mut piece = Piece::new(PieceType::L, 2, 4);
    piece.move_left();
    assert_eq!((piece.row, piece.col), (2, 3));
    piece.move_right();
    piece.move_right();
    assert_eq!((piece.row, piece.col), (2, 5));
    piece.move_down();
    assert_eq!((piece.row, piece.col), (3, 5));
    assert_eq!(piece.rotation, Rotation::North);
    assert_eq!(piece.piece_type, PieceType::L);
}

#[test]
fn copies_leave_the_piece_as_it_is() {
    let piece = Piece::new(PieceType::Z, 0, 0);
    assert_eq!(piece.with_left_move(), Piece { col: -1, ..piece });
    assert_eq!(piece.with_right_move(), Piece { col: 1, ..piece });
    assert_eq!(piece.with_down_move(), Piece { row: 1, ..piece });
    assert_eq!(piece.with_clockwise_rotation(), Piece { rotation: Rotation::East, ..piece });
    assert_eq!(piece.with_counterclockwise_rotation(), Piece { rotation: Rotation::West, ..piece });
    assert_eq!(piece, Piece::new(PieceType::Z, 0, 0));
}
