//! Rotation with wall kicks: a turn that does not fit in place is retried at
//! a fixed, ordered list of offsets that depends on the shape and on the
//! orientations before and after the turn.

use vstd::prelude::*;
use crate::board::{accepts, lemma_within_walls, within_walls, Board, Cell};
use crate::piece::{
    lemma_square_cells_fixed, placement_of, Piece, PieceType, Placement, Rotation,
};

verus! {

/// The kick table: the (row, column) offsets to try, in order, when a shape
/// turns from one orientation to another. The long shape has a table of its
/// own, the square shape is never kicked, and the other five share one table.
pub open spec fn kick_offsets(piece_type: PieceType, from: Rotation, to: Rotation) -> Seq<
    (int, int),
> {
    match piece_type {
        PieceType::I => match (from, to) {
            (Rotation::North, Rotation::East) => seq![(0, 0), (-1, 0), (2, 0), (-1, -2), (2, 1)],
            (Rotation::East, Rotation::North) => seq![(0, 0), (1, 0), (-2, 0), (1, 2), (-2, -1)],
            (Rotation::East, Rotation::South) => seq![(0, 0), (2, 0), (-1, 0), (2, -1), (-1, 2)],
            (Rotation::South, Rotation::East) => seq![(0, 0), (-2, 0), (1, 0), (-2, 1), (1, -2)],
            (Rotation::South, Rotation::West) => seq![(0, 0), (1, 0), (-2, 0), (1, 2), (-2, -1)],
            (Rotation::West, Rotation::South) => seq![(0, 0), (-1, 0), (2, 0), (-1, -2), (2, 1)],
            (Rotation::West, Rotation::North) => seq![(0, 0), (-2, 0), (1, 0), (-2, 1), (1, -2)],
            (Rotation::North, Rotation::West) => seq![(0, 0), (2, 0), (-1, 0), (2, -1), (-1, 2)],
            _ => seq![(0, 0)],
        },
        PieceType::O => seq![(0, 0)],
        _ => match (from, to) {
            (Rotation::North, Rotation::East) => seq![(0, 0), (-1, 0), (-1, 1), (0, -2), (-1, -2)],
            (Rotation::East, Rotation::North) => seq![(0, 0), (1, 0), (1, -1), (0, 2), (1, 2)],
            (Rotation::East, Rotation::South) => seq![(0, 0), (1, 0), (1, -1), (0, 2), (1, 2)],
            (Rotation::South, Rotation::East) => seq![(0, 0), (-1, 0), (-1, 1), (0, -2), (-1, -2)],
            (Rotation::South, Rotation::West) => seq![(0, 0), (1, 0), (1, 1), (0, -2), (1, -2)],
            (Rotation::West, Rotation::South) => seq![(0, 0), (-1, 0), (-1, -1), (0, 2), (-1, 2)],
            (Rotation::West, Rotation::North) => seq![(0, 0), (-1, 0), (-1, -1), (0, 2), (-1, 2)],
            (Rotation::North, Rotation::West) => seq![(0, 0), (1, 0), (1, 1), (0, -2), (1, -2)],
            _ => seq![(0, 0)],
        },
    }
}

/// Where the piece ends up if it turns to `to` and takes the kick with the
/// given index.
pub open spec fn kick_target(piece: Placement, to: Rotation, index: int) -> Placement {
    let offset = kick_offsets(piece.piece_type, piece.rotation, to)[index];
    piece.turned(to).moved(offset.0, offset.1)
}

/// Whether the kick with the given index leads to a position that a `Piece`
/// can hold and that the grid accepts.
pub open spec fn kick_fits(grid: Seq<Seq<Cell>>, piece: Placement, to: Rotation, index: int) -> bool {
    kick_target(piece, to, index).representable() && accepts(grid, kick_target(piece, to, index))
}

/// The result of trying the kicks from `index` on, in order: the target of
/// the first kick that fits, or `None` if none fits.
pub open spec fn resolve_from(
    grid: Seq<Seq<Cell>>,
    piece: Placement,
    to: Rotation,
    index: int,
) -> Option<Placement>
    decreases kick_offsets(piece.piece_type, piece.rotation, to).len() - index,
{
    if index < 0 || index >= kick_offsets(piece.piece_type, piece.rotation, to).len() {
        None
    } else if kick_fits(grid, piece, to, index) {
        Some(kick_target(piece, to, index))
    } else {
        resolve_from(grid, piece, to, index + 1)
    }
}

/// The result of turning a piece to the orientation `to` on a grid: the
/// target of the first kick of the table that fits, or `None` if the turn
/// is rejected.
pub open spec fn resolve(grid: Seq<Seq<Cell>>, piece: Placement, to: Rotation) -> Option<
    Placement,
> {
    resolve_from(grid, piece, to, 0)
}

/// The result of a quarter turn in the given direction.
pub open spec fn quarter_turn(grid: Seq<Seq<Cell>>, piece: Placement, clockwise: bool) -> Option<
    Placement,
> {
    resolve(
        grid,
        piece,
        if clockwise {
            piece.rotation.cw()
        } else {
            piece.rotation.ccw()
        },
    )
}

/// The result of `count` quarter turns in the given direction, one after
/// another, or `None` if one of them is rejected.
pub open spec fn quarter_turns(
    grid: Seq<Seq<Cell>>,
    piece: Placement,
    clockwise: bool,
    count: nat,
) -> Option<Placement>
    decreases count,
{
    if count == 0 {
        Some(piece)
    } else {
        match quarter_turn(grid, piece, clockwise) {
            Some(next) => quarter_turns(grid, next, clockwise, (count - 1) as nat),
            None => None,
        }
    }
}

/// Every list of the kick table begins with the zero offset, holds one or
/// five offsets, and moves the pivot by at most two rows and two columns.
pub proof fn lemma_kick_offsets_shape(piece_type: PieceType, from: Rotation, to: Rotation)
    ensures
        kick_offsets(piece_type, from, to).len() == 1 || kick_offsets(piece_type, from, to).len()
            == 5,
        kick_offsets(piece_type, from, to)[0] == (0int, 0int),
        piece_type == PieceType::O ==> kick_offsets(piece_type, from, to) == seq![(0int, 0int)],
        forall|i: int|
            0 <= i < kick_offsets(piece_type, from, to).len() ==> {
                let offset = #[trigger] kick_offsets(piece_type, from, to)[i];
                -2 <= offset.0 <= 2 && -2 <= offset.1 <= 2
            },
{
}

/// The long shape has a kick table of its own: for every quarter turn its
/// list differs from the list of each of the five shapes that share a table,
/// and those five have the same list.
pub proof fn lemma_long_shape_kicks_differ(
    shape: PieceType,
    other: PieceType,
    from: Rotation,
    to: Rotation,
)
    requires
        shape != PieceType::I && shape != PieceType::O,
        other != PieceType::I && other != PieceType::O,
        to == from.cw() || to == from.ccw(),
    ensures
        kick_offsets(PieceType::I, from, to) != kick_offsets(shape, from, to),
        kick_offsets(shape, from, to) == kick_offsets(other, from, to),
{
    let long = kick_offsets(PieceType::I, from, to);
    let shared = kick_offsets(shape, from, to);
    assert(long[2] != shared[2]);
}

/// A turn that is accepted keeps the shape, reaches the orientation asked
/// for, and leads to a position that a `Piece` can hold and that the grid
/// accepts, so that it lies within the walls.
pub proof fn lemma_resolved_fits(grid: Seq<Seq<Cell>>, piece: Placement, to: Rotation)
    ensures
        resolve(grid, piece, to) matches Some(target) ==> target.representable() && accepts(
            grid,
            target,
        ) && within_walls(target) && target.piece_type == piece.piece_type && target.rotation
            == to,
{
    lemma_resolve_from_fits(grid, piece, to, 0);
}

proof fn lemma_resolve_from_fits(grid: Seq<Seq<Cell>>, piece: Placement, to: Rotation, index: int)
    requires
        0 <= index,
    ensures
        resolve_from(grid, piece, to, index) matches Some(target) ==> target.representable()
            && accepts(grid, target) && within_walls(target) && target.piece_type
            == piece.piece_type && target.rotation == to,
    decreases kick_offsets(piece.piece_type, piece.rotation, to).len() - index,
{
    if index < kick_offsets(piece.piece_type, piece.rotation, to).len() {
        if kick_fits(grid, piece, to, index) {
            lemma_within_walls(grid, kick_target(piece, to, index));
        } else {
            lemma_resolve_from_fits(grid, piece, to, index + 1);
        }
    }
}

/// A turn that fits in place is taken in place: the pivot does not move.
pub proof fn lemma_turn_in_place(grid: Seq<Seq<Cell>>, piece: Placement, to: Rotation)
    requires
        piece.representable(),
        accepts(grid, piece.turned(to)),
    ensures
        resolve(grid, piece, to) == Some(piece.turned(to)),
{
    lemma_kick_offsets_shape(piece.piece_type, piece.rotation, to);
    assert(kick_target(piece, to, 0) == piece.turned(to));
}

/// The square shape is never kicked: an accepted turn leaves its pivot and
/// its cells where they were.
pub proof fn lemma_square_turn(grid: Seq<Seq<Cell>>, piece: Placement, to: Rotation)
    requires
        piece.piece_type == PieceType::O,
    ensures
        resolve(grid, piece, to) matches Some(target) ==> target == piece.turned(to)
            && target.cells() == piece.cells(),
{
    lemma_kick_offsets_shape(piece.piece_type, piece.rotation, to);
    assert(kick_target(piece, to, 0) == piece.turned(to));
    assert(resolve_from(grid, piece, to, 1) is None);
    lemma_square_cells_fixed(piece, to);
}

/// Four quarter turns in one direction, if all are accepted, lead back to
/// the orientation that the piece started in. If the piece fits in place
/// in all four orientations, the turns are accepted and lead back to the
/// pivot as well.
pub proof fn lemma_four_turns_return(grid: Seq<Seq<Cell>>, piece: Placement, clockwise: bool)
    ensures
        quarter_turns(grid, piece, clockwise, 4) matches Some(last) ==> last.rotation
            == piece.rotation && last.piece_type == piece.piece_type,
        piece.representable() && (forall|rotation: Rotation|
            accepts(grid, #[trigger] piece.turned(rotation))) ==> quarter_turns(
            grid,
            piece,
            clockwise,
            4,
        ) == Some(piece),
{
    reveal_with_fuel(quarter_turns, 5);
    let first = if clockwise {
        piece.rotation.cw()
    } else {
        piece.rotation.ccw()
    };
    let second = if clockwise {
        first.cw()
    } else {
        first.ccw()
    };
    let third = if clockwise {
        second.cw()
    } else {
        second.ccw()
    };
    let fourth = if clockwise {
        third.cw()
    } else {
        third.ccw()
    };
    piece.rotation.lemma_rotation_cycle();
    assert(fourth == piece.rotation);
    lemma_resolved_fits(grid, piece, first);
    if let Some(one) = quarter_turn(grid, piece, clockwise) {
        lemma_resolved_fits(grid, one, second);
        if let Some(two) = quarter_turn(grid, one, clockwise) {
            lemma_resolved_fits(grid, two, third);
            if let Some(three) = quarter_turn(grid, two, clockwise) {
                lemma_resolved_fits(grid, three, fourth);
            }
        }
    }
    if piece.representable() && (forall|rotation: Rotation|
        accepts(grid, #[trigger] piece.turned(rotation))) {
        assert(accepts(grid, piece.turned(first)));
        assert(accepts(grid, piece.turned(second)));
        assert(accepts(grid, piece.turned(third)));
        assert(accepts(grid, piece.turned(fourth)));
        lemma_turn_in_place(grid, piece, first);
        lemma_turn_in_place(grid, piece.turned(first), second);
        lemma_turn_in_place(grid, piece.turned(second), third);
        lemma_turn_in_place(grid, piece.turned(third), fourth);
        assert(piece.turned(first).turned(second) == piece.turned(second));
        assert(piece.turned(second).turned(third) == piece.turned(third));
        assert(piece.turned(third).turned(fourth) == piece);
    }
}

/// The rotation system: turns a piece on a board, resolving wall kicks.
pub struct RotationSystem;

impl RotationSystem {
    /// Turns the piece clockwise on the board. Returns the piece at the
    /// first kick of the table that fits, or `None` if none does.
    pub fn rotate_clockwise(piece: &Piece, board: &Board) -> (turned: Option<Piece>)
        ensures
            placement_of(turned) == resolve(board@, piece@, piece.rotation.cw()),
    {
        let to = piece.rotation.rotate_cw();
        Self::turn(piece, board, to)
    }

    /// Turns the piece counter-clockwise on the board. Returns the piece at
    /// the first kick of the table that fits, or `None` if none does.
    pub fn rotate_counterclockwise(piece: &Piece, board: &Board) -> (turned: Option<Piece>)
        ensures
            placement_of(turned) == resolve(board@, piece@, piece.rotation.ccw()),
    {
        let to = piece.rotation.rotate_ccw();
        Self::turn(piece, board, to)
    }

    /// Turns the piece to the orientation `to`, trying the kicks in order.
    fn turn(piece: &Piece, board: &Board, to: Rotation) -> (turned: Option<Piece>)
        ensures
            placement_of(turned) == resolve(board@, piece@, to),
    {
        let kicks = Self::get_kick_offsets(piece.piece_type, piece.rotation, to);
        let mut i: usize = 0;
        while i < kicks.len()
            invariant
                i <= kicks.len(),
                kicks@.len() == kick_offsets(piece.piece_type, piece.rotation, to).len(),
                forall|k: int|
                    0 <= k < kicks@.len() ==> (#[trigger] kicks@[k]).0 == kick_offsets(
                        piece.piece_type,
                        piece.rotation,
                        to,
                    )[k].0 && kicks@[k].1 == kick_offsets(
                        piece.piece_type,
                        piece.rotation,
                        to,
                    )[k].1,
                resolve(board@, piece@, to) == resolve_from(board@, piece@, to, i as int),
            decreases kicks.len() - i,
        {
            proof {
                lemma_kick_offsets_shape(piece.piece_type, piece.rotation, to);
            }
            let row: i64 = piece.row as i64 + kicks[i].0 as i64;
            let col: i64 = piece.col as i64 + kicks[i].1 as i64;
            assert(kick_target(piece@, to, i as int) == (Placement {
                piece_type: piece.piece_type,
                rotation: to,
                row: row as int,
                col: col as int,
            }));
            if i32::MIN as i64 <= row && row <= i32::MAX as i64 && i32::MIN as i64 <= col && col
                <= i32::MAX as i64 {
                let kicked = Piece {
                    piece_type: piece.piece_type,
                    row: row as i32,
                    col: col as i32,
                    rotation: to,
                };
                if board.can_place(&kicked) {
                    return Some(kicked);
                }
            }
            i += 1;
        }
        None
    }

    /// The list of the kick table for a shape and a turn.
    pub fn get_kick_offsets(piece_type: PieceType, from: Rotation, to: Rotation) -> (kicks: Vec<
        (i32, i32),
    >)
        ensures
            kicks@.len() == kick_offsets(piece_type, from, to).len(),
            forall|k: int|
                0 <= k < kicks@.len() ==> (#[trigger] kicks@[k]).0 == kick_offsets(
                    piece_type,
                    from,
                    to,
                )[k].0 && kicks@[k].1 == kick_offsets(piece_type, from, to)[k].1,
    {
        match piece_type {
            PieceType::I => match (from, to) {
                (Rotation::North, Rotation::East) => vec![(0, 0), (-1, 0), (2, 0), (-1, -2), (2, 1)],
                (Rotation::East, Rotation::North) => vec![(0, 0), (1, 0), (-2, 0), (1, 2), (-2, -1)],
                (Rotation::East, Rotation::South) => vec![(0, 0), (2, 0), (-1, 0), (2, -1), (-1, 2)],
                (Rotation::South, Rotation::East) => vec![(0, 0), (-2, 0), (1, 0), (-2, 1), (1, -2)],
                (Rotation::South, Rotation::West) => vec![(0, 0), (1, 0), (-2, 0), (1, 2), (-2, -1)],
                (Rotation::West, Rotation::South) => vec![(0, 0), (-1, 0), (2, 0), (-1, -2), (2, 1)],
                (Rotation::West, Rotation::North) => vec![(0, 0), (-2, 0), (1, 0), (-2, 1), (1, -2)],
                (Rotation::North, Rotation::West) => vec![(0, 0), (2, 0), (-1, 0), (2, -1), (-1, 2)],
                _ => vec![(0, 0)],
            },
            PieceType::O => vec![(0, 0)],
            _ => match (from, to) {
                (Rotation::North, Rotation::East) => vec![
                    (0, 0),
                    (-1, 0),
                    (-1, 1),
                    (0, -2),
                    (-1, -2),
                ],
                (Rotation::East, Rotation::North) => vec![(0, 0), (1, 0), (1, -1), (0, 2), (1, 2)],
                (Rotation::East, Rotation::South) => vec![(0, 0), (1, 0), (1, -1), (0, 2), (1, 2)],
                (Rotation::South, Rotation::East) => vec![
                    (0, 0),
                    (-1, 0),
                    (-1, 1),
                    (0, -2),
                    (-1, -2),
                ],
                (Rotation::South, Rotation::West) => vec![(0, 0), (1, 0), (1, 1), (0, -2), (1, -2)],
                (Rotation::West, Rotation::South) => vec![
                    (0, 0),
                    (-1, 0),
                    (-1, -1),
                    (0, 2),
                    (-1, 2),
                ],
                (Rotation::West, Rotation::North) => vec![
                    (0, 0),
                    (-1, 0),
                    (-1, -1),
                    (0, 2),
                    (-1, 2),
                ],
                (Rotation::North, Rotation::West) => vec![(0, 0), (1, 0), (1, 1), (0, -2), (1, -2)],
                _ => vec![(0, 0)],
            },
        }
    }
}

} // verus!
