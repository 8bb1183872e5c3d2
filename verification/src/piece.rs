//! Piece geometry: the seven shapes, their four orientations, and the fixed
//! table of occupied cells for each combination.

use vstd::prelude::*;

verus! {

/// The seven piece shapes.
#[derive(Clone, Copy, PartialEq, Eq, Debug, Structural)]
pub enum PieceType {
    I,
    O,
    T,
    S,
    Z,
    J,
    L,
}

/// The four orientations of a piece. They form a cycle
/// North -> East -> South -> West -> North under clockwise rotation.
#[derive(Clone, Copy, PartialEq, Eq, Debug, Structural)]
pub enum Rotation {
    North,
    East,
    South,
    West,
}

impl Rotation {
    /// The next orientation in clockwise direction.
    pub open spec fn cw(self) -> Rotation {
        match self {
            Rotation::North => Rotation::East,
            Rotation::East => Rotation::South,
            Rotation::South => Rotation::West,
            Rotation::West => Rotation::North,
        }
    }

    /// The next orientation in counter-clockwise direction.
    pub open spec fn ccw(self) -> Rotation {
        match self {
            Rotation::North => Rotation::West,
            Rotation::East => Rotation::North,
            Rotation::South => Rotation::East,
            Rotation::West => Rotation::South,
        }
    }

    /// Position of the orientation in the clockwise cycle, starting at North.
    pub open spec fn index(self) -> int {
        match self {
            Rotation::North => 0,
            Rotation::East => 1,
            Rotation::South => 2,
            Rotation::West => 3,
        }
    }

    /// Rotates clockwise.
    pub fn rotate_cw(self) -> (next: Rotation)
        ensures
            next == self.cw(),
            next.index() == (self.index() + 1) % 4,
    {
        match self {
            Rotation::North => Rotation::East,
            Rotation::East => Rotation::South,
            Rotation::South => Rotation::West,
            Rotation::West => Rotation::North,
        }
    }

    /// Rotates counter-clockwise.
    pub fn rotate_ccw(self) -> (next: Rotation)
        ensures
            next == self.ccw(),
            next.index() == (self.index() + 3) % 4,
    {
        match self {
            Rotation::North => Rotation::West,
            Rotation::East => Rotation::North,
            Rotation::South => Rotation::East,
            Rotation::West => Rotation::South,
        }
    }

    /// Converts the orientation to its index (0 to 3).
    pub fn to_index(self) -> (index: usize)
        ensures
            index == self.index(),
    {
        match self {
            Rotation::North => 0,
            Rotation::East => 1,
            Rotation::South => 2,
            Rotation::West => 3,
        }
    }

    /// Four clockwise turns, and four counter-clockwise turns, lead back to
    /// the orientation they started from; the two directions undo each other.
    pub proof fn lemma_rotation_cycle(self)
        ensures
            self.cw().cw().cw().cw() == self,
            self.ccw().ccw().ccw().ccw() == self,
            self.cw().ccw() == self,
            self.ccw().cw() == self,
    {
    }
}

/// The cells that a shape occupies in an orientation, as (row, column)
/// offsets from the pivot. This table is the only source of piece geometry.
pub open spec fn block_offsets(piece_type: PieceType, rotation: Rotation) -> Seq<(int, int)> {
    match (piece_type, rotation) {
        (PieceType::I, Rotation::North) => seq![(0, -1), (0, 0), (0, 1), (0, 2)],
        (PieceType::I, Rotation::East) => seq![(-1, 1), (0, 1), (1, 1), (2, 1)],
        (PieceType::I, Rotation::South) => seq![(1, -1), (1, 0), (1, 1), (1, 2)],
        (PieceType::I, Rotation::West) => seq![(-1, 0), (0, 0), (1, 0), (2, 0)],
        (PieceType::O, _) => seq![(0, 0), (0, 1), (1, 0), (1, 1)],
        (PieceType::T, Rotation::North) => seq![(0, 0), (0, -1), (0, 1), (1, 0)],
        (PieceType::T, Rotation::East) => seq![(0, 0), (-1, 0), (1, 0), (0, 1)],
        (PieceType::T, Rotation::South) => seq![(0, 0), (0, -1), (0, 1), (-1, 0)],
        (PieceType::T, Rotation::West) => seq![(0, 0), (-1, 0), (1, 0), (0, -1)],
        (PieceType::S, Rotation::North) => seq![(0, 0), (0, -1), (1, 0), (1, 1)],
        (PieceType::S, Rotation::East) => seq![(0, 0), (1, 0), (0, 1), (-1, 1)],
        (PieceType::S, Rotation::South) => seq![(0, 0), (0, 1), (-1, 0), (-1, -1)],
        (PieceType::S, Rotation::West) => seq![(0, 0), (-1, 0), (0, -1), (1, -1)],
        (PieceType::Z, Rotation::North) => seq![(0, 0), (0, 1), (1, 0), (1, -1)],
        (PieceType::Z, Rotation::East) => seq![(0, 0), (-1, 0), (0, -1), (1, -1)],
        (PieceType::Z, Rotation::South) => seq![(0, 0), (0, -1), (-1, 0), (-1, 1)],
        (PieceType::Z, Rotation::West) => seq![(0, 0), (1, 0), (0, 1), (-1, 1)],
        (PieceType::J, Rotation::North) => seq![(0, 0), (0, -1), (0, 1), (-1, 1)],
        (PieceType::J, Rotation::East) => seq![(0, 0), (-1, 0), (1, 0), (-1, -1)],
        (PieceType::J, Rotation::South) => seq![(0, 0), (0, 1), (0, -1), (1, -1)],
        (PieceType::J, Rotation::West) => seq![(0, 0), (1, 0), (-1, 0), (1, 1)],
        (PieceType::L, Rotation::North) => seq![(0, 0), (0, -1), (0, 1), (1, 1)],
        (PieceType::L, Rotation::East) => seq![(0, 0), (-1, 0), (1, 0), (1, -1)],
        (PieceType::L, Rotation::South) => seq![(0, 0), (0, 1), (0, -1), (-1, -1)],
        (PieceType::L, Rotation::West) => seq![(0, 0), (1, 0), (-1, 0), (-1, 1)],
    }
}

/// Every shape has four cells in every orientation, none further than two
/// steps from the pivot.
pub proof fn lemma_block_offsets_shape(piece_type: PieceType, rotation: Rotation)
    ensures
        block_offsets(piece_type, rotation).len() == 4,
        forall|i: int|
            0 <= i < 4 ==> {
                let offset = #[trigger] block_offsets(piece_type, rotation)[i];
                -1 <= offset.0 <= 2 && -1 <= offset.1 <= 2
            },
{
}

/// The mathematical model of a piece: a shape in an orientation whose pivot
/// has unbounded integer coordinates.
pub struct Placement {
    pub piece_type: PieceType,
    pub rotation: Rotation,
    pub row: int,
    pub col: int,
}

impl Placement {
    /// The four cells that the piece occupies, in the order of the table.
    pub open spec fn cells(self) -> Seq<(int, int)> {
        Seq::new(
            4,
            |i: int|
                (
                    self.row + block_offsets(self.piece_type, self.rotation)[i].0,
                    self.col + block_offsets(self.piece_type, self.rotation)[i].1,
                ),
        )
    }

    /// The cells with non-negative coordinates, in the order of the table.
    pub open spec fn addressable_cells(self) -> Seq<(int, int)> {
        self.cells().filter(|cell: (int, int)| cell.0 >= 0 && cell.1 >= 0)
    }

    /// The piece with its pivot moved by the given number of rows and columns.
    pub open spec fn moved(self, rows: int, cols: int) -> Placement {
        Placement { row: self.row + rows, col: self.col + cols, ..self }
    }

    /// The piece in another orientation, pivot unchanged.
    pub open spec fn turned(self, rotation: Rotation) -> Placement {
        Placement { rotation, ..self }
    }

    /// Whether the pivot can be held in a `Piece`.
    pub open spec fn representable(self) -> bool {
        i32::MIN <= self.row <= i32::MAX && i32::MIN <= self.col <= i32::MAX
    }
}

/// A piece: a shape in an orientation with its pivot at a signed
/// (row, column) position. The pivot may lie outside the grid.
#[derive(Clone, Copy, PartialEq, Eq, Debug, Structural)]
pub struct Piece {
    pub piece_type: PieceType,
    pub row: i32,
    pub col: i32,
    pub rotation: Rotation,
}

impl View for Piece {
    type V = Placement;

    open spec fn view(&self) -> Placement {
        Placement {
            piece_type: self.piece_type,
            rotation: self.rotation,
            row: self.row as int,
            col: self.col as int,
        }
    }
}

impl Piece {
    /// Creates a piece of the given shape, facing North, with its pivot at
    /// the given position.
    pub fn new(piece_type: PieceType, row: i32, col: i32) -> (piece: Piece)
        ensures
            piece == (Piece { piece_type, row, col, rotation: Rotation::North }),
    {
        Piece { piece_type, row, col, rotation: Rotation::North }
    }

    /// The cells of the piece that have non-negative coordinates, in the
    /// order of the table. Cells above or left of the origin are left out.
    pub fn get_blocks(&self) -> (blocks: Vec<(usize, usize)>)
        ensures
            blocks@.map_values(|b: (usize, usize)| (b.0 as int, b.1 as int))
                == self@.addressable_cells(),
    {
        let offsets = self.get_block_offsets();
        let ghost keep = |cell: (int, int)| cell.0 >= 0 && cell.1 >= 0;
        let ghost widen = |b: (usize, usize)| (b.0 as int, b.1 as int);
        let mut blocks: Vec<(usize, usize)> = Vec::new();
        proof {
            reveal(Seq::filter);
            assert(self@.cells().take(0) =~= Seq::<(int, int)>::empty());
            assert(blocks@.map_values(widen) =~= self@.cells().take(0).filter(keep));
        }
        for i in 0..4
            invariant
                keep == |cell: (int, int)| cell.0 >= 0 && cell.1 >= 0,
                widen == |b: (usize, usize)| (b.0 as int, b.1 as int),
                forall|k: int|
                    0 <= k < 4 ==> (#[trigger] offsets[k]).0 == block_offsets(
                        self.piece_type,
                        self.rotation,
                    )[k].0 && offsets[k].1 == block_offsets(self.piece_type, self.rotation)[k].1,
                blocks@.map_values(widen) == self@.cells().take(i as int).filter(keep),
        {
            let row: i64 = self.row as i64 + offsets[i].0 as i64;
            let col: i64 = self.col as i64 + offsets[i].1 as i64;
            proof {
                lemma_block_offsets_shape(self.piece_type, self.rotation);
                let prefix = self@.cells().take(i as int);
                let cell = self@.cells()[i as int];
                assert(cell == (row as int, col as int));
                assert(self@.cells().take(i + 1) =~= prefix.push(cell));
                assert(prefix.push(cell).drop_last() =~= prefix);
                reveal(Seq::filter);
                assert(prefix.push(cell).filter(keep) == if keep(cell) {
                    prefix.filter(keep).push(cell)
                } else {
                    prefix.filter(keep)
                });
            }
            if row >= 0 && col >= 0 {
                let ghost before = blocks@;
                blocks.push((row as usize, col as usize));
                assert(blocks@.map_values(widen) =~= before.map_values(widen).push(
                    (row as int, col as int),
                ));
            }
        }
        assert(self@.cells().take(4) =~= self@.cells());
        blocks
    }

    /// The offsets of the four cells from the pivot, as the table gives them
    /// for this shape and orientation.
    pub fn get_block_offsets(&self) -> (offsets: [(i32, i32); 4])
        ensures
            forall|i: int|
                0 <= i < 4 ==> (#[trigger] offsets[i]).0 == block_offsets(
                    self.piece_type,
                    self.rotation,
                )[i].0 && offsets[i].1 == block_offsets(self.piece_type, self.rotation)[i].1,
    {
        match (self.piece_type, self.rotation) {
            (PieceType::I, Rotation::North) => [(0, -1), (0, 0), (0, 1), (0, 2)],
            (PieceType::I, Rotation::East) => [(-1, 1), (0, 1), (1, 1), (2, 1)],
            (PieceType::I, Rotation::South) => [(1, -1), (1, 0), (1, 1), (1, 2)],
            (PieceType::I, Rotation::West) => [(-1, 0), (0, 0), (1, 0), (2, 0)],
            (PieceType::O, _) => [(0, 0), (0, 1), (1, 0), (1, 1)],
            (PieceType::T, Rotation::North) => [(0, 0), (0, -1), (0, 1), (1, 0)],
            (PieceType::T, Rotation::East) => [(0, 0), (-1, 0), (1, 0), (0, 1)],
            (PieceType::T, Rotation::South) => [(0, 0), (0, -1), (0, 1), (-1, 0)],
            (PieceType::T, Rotation::West) => [(0, 0), (-1, 0), (1, 0), (0, -1)],
            (PieceType::S, Rotation::North) => [(0, 0), (0, -1), (1, 0), (1, 1)],
            (PieceType::S, Rotation::East) => [(0, 0), (1, 0), (0, 1), (-1, 1)],
            (PieceType::S, Rotation::South) => [(0, 0), (0, 1), (-1, 0), (-1, -1)],
            (PieceType::S, Rotation::West) => [(0, 0), (-1, 0), (0, -1), (1, -1)],
            (PieceType::Z, Rotation::North) => [(0, 0), (0, 1), (1, 0), (1, -1)],
            (PieceType::Z, Rotation::East) => [(0, 0), (-1, 0), (0, -1), (1, -1)],
            (PieceType::Z, Rotation::South) => [(0, 0), (0, -1), (-1, 0), (-1, 1)],
            (PieceType::Z, Rotation::West) => [(0, 0), (1, 0), (0, 1), (-1, 1)],
            (PieceType::J, Rotation::North) => [(0, 0), (0, -1), (0, 1), (-1, 1)],
            (PieceType::J, Rotation::East) => [(0, 0), (-1, 0), (1, 0), (-1, -1)],
            (PieceType::J, Rotation::South) => [(0, 0), (0, 1), (0, -1), (1, -1)],
            (PieceType::J, Rotation::West) => [(0, 0), (1, 0), (-1, 0), (1, 1)],
            (PieceType::L, Rotation::North) => [(0, 0), (0, -1), (0, 1), (1, 1)],
            (PieceType::L, Rotation::East) => [(0, 0), (-1, 0), (1, 0), (1, -1)],
            (PieceType::L, Rotation::South) => [(0, 0), (0, 1), (0, -1), (-1, -1)],
            (PieceType::L, Rotation::West) => [(0, 0), (1, 0), (-1, 0), (-1, 1)],
        }
    }

    /// Moves the pivot one column to the left.
    pub fn move_left(&mut self)
        requires
            old(self).col > i32::MIN,
        ensures
            final(self)@ == old(self)@.moved(0, -1),
    {
        self.col -= 1;
    }

    /// Moves the pivot one column to the right.
    pub fn move_right(&mut self)
        requires
            old(self).col < i32::MAX,
        ensures
            final(self)@ == old(self)@.moved(0, 1),
    {
        self.col += 1;
    }

    /// Moves the pivot one row down.
    pub fn move_down(&mut self)
        requires
            old(self).row < i32::MAX,
        ensures
            final(self)@ == old(self)@.moved(1, 0),
    {
        self.row += 1;
    }

    /// Turns the piece clockwise about its pivot.
    pub fn rotate_clockwise(&mut self)
        ensures
            final(self)@ == old(self)@.turned(old(self).rotation.cw()),
    {
        self.rotation = self.rotation.rotate_cw();
    }

    /// Turns the piece counter-clockwise about its pivot.
    pub fn rotate_counterclockwise(&mut self)
        ensures
            final(self)@ == old(self)@.turned(old(self).rotation.ccw()),
    {
        self.rotation = self.rotation.rotate_ccw();
    }

    /// A copy of the piece, turned clockwise.
    pub fn with_clockwise_rotation(&self) -> (piece: Piece)
        ensures
            piece@ == self@.turned(self.rotation.cw()),
    {
        let mut piece = *self;
        piece.rotate_clockwise();
        piece
    }

    /// A copy of the piece, turned counter-clockwise.
    pub fn with_counterclockwise_rotation(&self) -> (piece: Piece)
        ensures
            piece@ == self@.turned(self.rotation.ccw()),
    {
        let mut piece = *self;
        piece.rotate_counterclockwise();
        piece
    }

    /// A copy of the piece, one column further left.
    pub fn with_left_move(&self) -> (piece: Piece)
        requires
            self.col > i32::MIN,
        ensures
            piece@ == self@.moved(0, -1),
    {
        let mut piece = *self;
        piece.move_left();
        piece
    }

    /// A copy of the piece, one column further right.
    pub fn with_right_move(&self) -> (piece: Piece)
        requires
            self.col < i32::MAX,
        ensures
            piece@ == self@.moved(0, 1),
    {
        let mut piece = *self;
        piece.move_right();
        piece
    }

    /// A copy of the piece, one row further down.
    pub fn with_down_move(&self) -> (piece: Piece)
        requires
            self.row < i32::MAX,
        ensures
            piece@ == self@.moved(1, 0),
    {
        let mut piece = *self;
        piece.move_down();
        piece
    }
}

/// The square shape occupies the same cells in every orientation.
pub proof fn lemma_square_cells_fixed(piece: Placement, rotation: Rotation)
    requires
        piece.piece_type == PieceType::O,
    ensures
        piece.turned(rotation).cells() == piece.cells(),
{
    assert(piece.turned(rotation).cells() =~= piece.cells());
}

/// The model of a piece that may be absent.
pub open spec fn placement_of(piece: Option<Piece>) -> Option<Placement> {
    match piece {
        Some(piece) => Some(piece@),
        None => None,
    }
}

} // verus!
