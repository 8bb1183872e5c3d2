//! The playing field: a fixed grid of cells with placement rules, line
//! removal, and perfect-clear detection.

use vstd::prelude::*;
use crate::piece::{block_offsets, lemma_block_offsets_shape, Piece, PieceType, Placement};
use crate::{BOARD_HEIGHT, BOARD_WIDTH};

verus! {

/// A cell of the playing field. A filled cell remembers the shape that
/// filled it; the rules only ask whether a cell is empty.
#[derive(Clone, Copy, PartialEq, Eq, Debug, Structural)]
pub enum Cell {
    Empty,
    Filled(PieceType),
}

impl Default for Cell {
    fn default() -> (cell: Cell)
        ensures
            cell == Cell::Empty,
    {
        Cell::Empty
    }
}

/// Whether (row, col) addresses a cell of the grid.
pub open spec fn in_bounds(row: int, col: int) -> bool {
    0 <= row < BOARD_HEIGHT && 0 <= col < BOARD_WIDTH
}

/// Whether a grid has the dimensions of the playing field.
pub open spec fn grid_shape(grid: Seq<Seq<Cell>>) -> bool {
    &&& grid.len() == BOARD_HEIGHT
    &&& forall|row: int| 0 <= row < BOARD_HEIGHT ==> (#[trigger] grid[row]).len() == BOARD_WIDTH
}

/// A row without filled cells.
pub open spec fn empty_row() -> Seq<Cell> {
    Seq::new(BOARD_WIDTH as nat, |col: int| Cell::Empty)
}

/// The grid without filled cells.
pub open spec fn empty_grid() -> Seq<Seq<Cell>> {
    Seq::new(BOARD_HEIGHT as nat, |row: int| empty_row())
}

/// Whether a cell of a piece is free: it lies between the side walls and
/// above the floor, and the grid is empty there. A cell above the top row
/// lies outside the grid and collides with nothing.
pub open spec fn cell_free(grid: Seq<Seq<Cell>>, cell: (int, int)) -> bool {
    &&& 0 <= cell.1 < BOARD_WIDTH
    &&& cell.0 < BOARD_HEIGHT
    &&& cell.0 >= 0 ==> grid[cell.0][cell.1] == Cell::Empty
}

/// Whether a piece can be placed: each of its four cells is free.
pub open spec fn accepts(grid: Seq<Seq<Cell>>, piece: Placement) -> bool {
    forall|i: int| 0 <= i < 4 ==> cell_free(grid, #[trigger] piece.cells()[i])
}

/// Whether every cell of a piece lies between the side walls and above the
/// floor. Cells may lie above the top row.
pub open spec fn within_walls(piece: Placement) -> bool {
    forall|i: int|
        0 <= i < 4 ==> 0 <= (#[trigger] piece.cells()[i]).1 < BOARD_WIDTH && piece.cells()[i].0
            < BOARD_HEIGHT
}

/// A piece that the grid accepts lies within the walls, and a piece within
/// the walls has its pivot close to the grid.
pub proof fn lemma_within_walls(grid: Seq<Seq<Cell>>, piece: Placement)
    ensures
        accepts(grid, piece) ==> within_walls(piece),
        within_walls(piece) ==> -2 <= piece.col <= BOARD_WIDTH && piece.row <= BOARD_HEIGHT,
{
    lemma_block_offsets_shape(piece.piece_type, piece.rotation);
    if accepts(grid, piece) {
        assert forall|i: int| 0 <= i < 4 implies 0 <= (#[trigger] piece.cells()[i]).1 < BOARD_WIDTH
            && piece.cells()[i].0 < BOARD_HEIGHT by {
            assert(cell_free(grid, piece.cells()[i]));
        }
    }
    if within_walls(piece) {
        assert(0 <= piece.cells()[0].1 < BOARD_WIDTH);
        assert(block_offsets(piece.piece_type, piece.rotation)[0].1 >= -1);
    }
}

/// The grid after the listed cells have been filled with a shape. Listed
/// cells outside the grid leave no trace.
pub open spec fn filled(grid: Seq<Seq<Cell>>, cells: Seq<(int, int)>, shape: PieceType) -> Seq<
    Seq<Cell>,
> {
    Seq::new(
        BOARD_HEIGHT as nat,
        |row: int|
            Seq::new(
                BOARD_WIDTH as nat,
                |col: int|
                    if cells.contains((row, col)) {
                        Cell::Filled(shape)
                    } else {
                        grid[row][col]
                    },
            ),
    )
}

/// The grid after the cells of a piece have been filled with its shape.
pub open spec fn placed(grid: Seq<Seq<Cell>>, piece: Placement) -> Seq<Seq<Cell>> {
    filled(grid, piece.cells(), piece.piece_type)
}

/// Whether every cell of a row is filled.
pub open spec fn row_complete(row: Seq<Cell>) -> bool {
    forall|col: int| 0 <= col < row.len() ==> #[trigger] row[col] != Cell::Empty
}

/// The rows that line removal keeps, in their order from the top.
pub open spec fn surviving_rows(grid: Seq<Seq<Cell>>) -> Seq<Seq<Cell>> {
    grid.filter(|row: Seq<Cell>| !row_complete(row))
}

/// The number of complete rows of a grid.
pub open spec fn complete_rows(grid: Seq<Seq<Cell>>) -> nat {
    (grid.len() - surviving_rows(grid).len()) as nat
}

/// The grid after line removal: the surviving rows rest on the floor in
/// their old order, below one empty row for each row that was removed.
pub open spec fn cleared(grid: Seq<Seq<Cell>>) -> Seq<Seq<Cell>> {
    Seq::new(complete_rows(grid), |row: int| empty_row()) + surviving_rows(grid)
}

/// For a piece without a cell above the top row, the grid accepts the piece
/// exactly if each of its cells lies in the grid and is empty there.
pub proof fn lemma_accepts_on_grid(grid: Seq<Seq<Cell>>, piece: Placement)
    requires
        forall|i: int| 0 <= i < 4 ==> (#[trigger] piece.cells()[i]).0 >= 0,
    ensures
        accepts(grid, piece) <==> forall|i: int|
            0 <= i < 4 ==> in_bounds((#[trigger] piece.cells()[i]).0, piece.cells()[i].1)
                && grid[piece.cells()[i].0][piece.cells()[i].1] == Cell::Empty,
{
    if accepts(grid, piece) {
        assert forall|i: int| 0 <= i < 4 implies in_bounds(
            (#[trigger] piece.cells()[i]).0,
            piece.cells()[i].1,
        ) && grid[piece.cells()[i].0][piece.cells()[i].1] == Cell::Empty by {
            assert(cell_free(grid, piece.cells()[i]));
        }
    }
}

/// A piece with a cell beside the walls, below the floor, or on a filled
/// cell is rejected, wherever its other cells lie.
pub proof fn lemma_rejects(grid: Seq<Seq<Cell>>, piece: Placement, i: int)
    requires
        0 <= i < 4,
        piece.cells()[i].1 < 0 || piece.cells()[i].1 >= BOARD_WIDTH || piece.cells()[i].0
            >= BOARD_HEIGHT || (piece.cells()[i].0 >= 0
            && grid[piece.cells()[i].0][piece.cells()[i].1] != Cell::Empty),
    ensures
        !accepts(grid, piece),
{
    assert(!cell_free(grid, piece.cells()[i]));
}

/// The rows that line removal keeps are rows of the grid, and none of them
/// is complete.
pub proof fn lemma_surviving_rows(grid: Seq<Seq<Cell>>)
    ensures
        forall|i: int|
            0 <= i < surviving_rows(grid).len() ==> !row_complete(
                #[trigger] surviving_rows(grid)[i],
            ) && grid.contains(surviving_rows(grid)[i]),
    decreases grid.len(),
{
    reveal(Seq::filter);
    if grid.len() > 0 {
        let rest = grid.drop_last();
        lemma_surviving_rows(rest);
        assert forall|i: int| 0 <= i < surviving_rows(grid).len() implies !row_complete(
            #[trigger] surviving_rows(grid)[i],
        ) && grid.contains(surviving_rows(grid)[i]) by {
            if i < surviving_rows(rest).len() {
                let row = surviving_rows(rest)[i];
                assert(rest.contains(row));
                let k = choose|k: int| 0 <= k < rest.len() && rest[k] == row;
                assert(grid[k] == row);
            } else {
                assert(grid[grid.len() - 1] == surviving_rows(grid)[i]);
            }
        }
    }
}

/// Line removal keeps every row of a grid without complete rows.
pub proof fn lemma_nothing_to_clear(grid: Seq<Seq<Cell>>)
    requires
        forall|i: int| 0 <= i < grid.len() ==> !row_complete(#[trigger] grid[i]),
    ensures
        surviving_rows(grid) == grid,
    decreases grid.len(),
{
    reveal(Seq::filter);
    if grid.len() > 0 {
        lemma_nothing_to_clear(grid.drop_last());
        assert(grid.drop_last().push(grid.last()) =~= grid);
    }
}

/// Line removal can be done row by row: removing one complete row, so
/// that the rows above it move down by one and an empty row enters at the
/// top, and then removing the rest, gives what line removal gives at once.
pub proof fn lemma_cleared_row_by_row(grid: Seq<Seq<Cell>>, row: int)
    requires
        0 <= row < grid.len(),
        row_complete(grid[row]),
    ensures
        complete_rows(without_row(grid, row)) == complete_rows(grid) - 1,
        cleared(without_row(grid, row)) == cleared(grid),
{
    let keep = |r: Seq<Cell>| !row_complete(r);
    let above = grid.take(row);
    let below = grid.skip(row + 1);
    let top = seq![empty_row()];
    assert(empty_row()[0] == Cell::Empty);
    assert(grid =~= above + seq![grid[row]] + below);
    assert(without_row(grid, row) =~= top + above + below);
    Seq::filter_distributes_over_add(above + seq![grid[row]], below, keep);
    Seq::filter_distributes_over_add(above, seq![grid[row]], keep);
    Seq::filter_distributes_over_add(top + above, below, keep);
    Seq::filter_distributes_over_add(top, above, keep);
    assert(seq![grid[row]].filter(keep) =~= Seq::<Seq<Cell>>::empty()) by {
        reveal_with_fuel(Seq::filter, 2);
        assert(seq![grid[row]].drop_last() =~= Seq::<Seq<Cell>>::empty());
    }
    assert(top.filter(keep) =~= top) by {
        reveal_with_fuel(Seq::filter, 2);
        assert(top.drop_last() =~= Seq::<Seq<Cell>>::empty());
    }
    assert(surviving_rows(without_row(grid, row)) =~= top + surviving_rows(grid));
    grid.lemma_filter_len(keep);
    assert(cleared(without_row(grid, row)) =~= cleared(grid));
}

/// The empty grid has the dimensions of the playing field, no filled cell,
/// and no complete row.
pub proof fn lemma_empty_grid()
    ensures
        grid_shape(empty_grid()),
        all_empty(empty_grid()),
        !top_blocked(empty_grid()),
        complete_rows(empty_grid()) == 0,
{
    assert forall|i: int| 0 <= i < empty_grid().len() implies !row_complete(
        #[trigger] empty_grid()[i],
    ) by {
        assert(empty_grid()[i][0] == Cell::Empty);
    }
    lemma_nothing_to_clear(empty_grid());
}

/// Line removal keeps the dimensions of the grid and leaves no complete
/// row behind.
pub proof fn lemma_cleared(grid: Seq<Seq<Cell>>)
    requires
        grid_shape(grid),
    ensures
        grid_shape(cleared(grid)),
        complete_rows(cleared(grid)) == 0,
{
    lemma_surviving_rows(grid);
    grid.lemma_filter_len(|row: Seq<Cell>| !row_complete(row));
    let after = cleared(grid);
    let removed = complete_rows(grid) as int;
    assert forall|i: int| 0 <= i < after.len() implies (#[trigger] after[i]).len() == BOARD_WIDTH
        && !row_complete(after[i]) by {
        if i < removed {
            assert(after[i] == empty_row());
            assert(empty_row()[0] == Cell::Empty);
        } else {
            let row = surviving_rows(grid)[i - removed];
            assert(after[i] == row);
            assert(grid.contains(row));
        }
    }
    lemma_nothing_to_clear(after);
}

/// A grid has no more complete rows than rows.
pub proof fn lemma_complete_rows_bounded(grid: Seq<Seq<Cell>>)
    ensures
        complete_rows(grid) <= grid.len(),
{
}

/// The grid after one row has been removed: the rows above it move down by
/// one and an empty row enters at the top.
pub open spec fn without_row(grid: Seq<Seq<Cell>>, row: int) -> Seq<Seq<Cell>> {
    seq![empty_row()] + grid.remove(row)
}

/// Whether no cell of the grid is filled.
pub open spec fn all_empty(grid: Seq<Seq<Cell>>) -> bool {
    forall|row: int, col: int| in_bounds(row, col) ==> #[trigger] grid[row][col] == Cell::Empty
}

/// Whether the top row holds a filled cell.
pub open spec fn top_blocked(grid: Seq<Seq<Cell>>) -> bool {
    exists|col: int| 0 <= col < BOARD_WIDTH && #[trigger] grid[0][col] != Cell::Empty
}

/// Whether every cell of the piece lies between the side walls and above
/// the floor.
pub fn is_within_walls(piece: &Piece) -> (inside: bool)
    ensures
        inside == within_walls(piece@),
{
    let offsets = piece.get_block_offsets();
    for i in 0..4
        invariant
            forall|k: int|
                0 <= k < 4 ==> (#[trigger] offsets[k]).0 == block_offsets(
                    piece.piece_type,
                    piece.rotation,
                )[k].0 && offsets[k].1 == block_offsets(piece.piece_type, piece.rotation)[k].1,
            forall|k: int|
                0 <= k < i ==> 0 <= (#[trigger] piece@.cells()[k]).1 < BOARD_WIDTH
                    && piece@.cells()[k].0 < BOARD_HEIGHT,
    {
        proof {
            lemma_block_offsets_shape(piece.piece_type, piece.rotation);
        }
        let row: i64 = piece.row as i64 + offsets[i].0 as i64;
        let col: i64 = piece.col as i64 + offsets[i].1 as i64;
        assert(piece@.cells()[i as int] == (row as int, col as int));
        if col < 0 || col >= BOARD_WIDTH as i64 || row >= BOARD_HEIGHT as i64 {
            return false;
        }
    }
    true
}

/// The playing field: `BOARD_HEIGHT` rows of `BOARD_WIDTH` cells, row 0 at
/// the top.
#[derive(Debug)]
pub struct Board {
    grid: [[Cell; BOARD_WIDTH]; BOARD_HEIGHT],
}

impl View for Board {
    type V = Seq<Seq<Cell>>;

    closed spec fn view(&self) -> Seq<Seq<Cell>> {
        Seq::new(BOARD_HEIGHT as nat, |row: int| self.grid[row]@)
    }
}

impl Clone for Board {
    fn clone(&self) -> (board: Board)
        ensures
            board == *self,
    {
        Board { grid: self.grid }
    }
}

impl Board {
    /// The model of a board always has the dimensions of the playing field.
    pub proof fn lemma_shape(&self)
        ensures
            grid_shape(self@),
    {
    }

    /// Creates an empty board.
    pub fn new() -> (board: Board)
        ensures
            board@ == empty_grid(),
    {
        let board = Board { grid: [[Cell::Empty; BOARD_WIDTH]; BOARD_HEIGHT] };
        assert(board@ =~~= empty_grid());
        board
    }

    /// The cell at the given coordinates, or `None` outside the grid.
    pub fn get_cell(&self, row: usize, col: usize) -> (cell: Option<&Cell>)
        ensures
            cell == if in_bounds(row as int, col as int) {
                Some(&self@[row as int][col as int])
            } else {
                None
            },
    {
        if row < BOARD_HEIGHT && col < BOARD_WIDTH {
            Some(&self.grid[row][col])
        } else {
            None
        }
    }

    /// Writes the cell at the given coordinates. Outside the grid nothing is
    /// written and the result is `false`.
    pub fn set_cell(&mut self, row: usize, col: usize, cell: Cell) -> (written: bool)
        ensures
            written == in_bounds(row as int, col as int),
            written ==> final(self)@ == old(self)@.update(
                row as int,
                old(self)@[row as int].update(col as int, cell),
            ),
            !written ==> *final(self) == *old(self),
    {
        if row < BOARD_HEIGHT && col < BOARD_WIDTH {
            self.grid[row][col] = cell;
            assert(self@ =~~= old(self)@.update(
                row as int,
                old(self)@[row as int].update(col as int, cell),
            ));
            true
        } else {
            false
        }
    }

    /// Whether the piece can be placed: all four of its cells lie between
    /// the side walls and above the floor, and none overlaps a filled cell.
    pub fn can_place(&self, piece: &Piece) -> (ok: bool)
        ensures
            ok == accepts(self@, piece@),
    {
        let offsets = piece.get_block_offsets();
        for i in 0..4
            invariant
                forall|k: int|
                    0 <= k < 4 ==> (#[trigger] offsets[k]).0 == block_offsets(
                        piece.piece_type,
                        piece.rotation,
                    )[k].0 && offsets[k].1 == block_offsets(piece.piece_type, piece.rotation)[k].1,
                forall|k: int| 0 <= k < i ==> cell_free(self@, #[trigger] piece@.cells()[k]),
        {
            proof {
                lemma_block_offsets_shape(piece.piece_type, piece.rotation);
            }
            let row: i64 = piece.row as i64 + offsets[i].0 as i64;
            let col: i64 = piece.col as i64 + offsets[i].1 as i64;
            assert(piece@.cells()[i as int] == (row as int, col as int));
            if col < 0 || col >= BOARD_WIDTH as i64 || row >= BOARD_HEIGHT as i64 {
                return false;
            }
            if row >= 0 {
                match self.grid[row as usize][col as usize] {
                    Cell::Filled(_) => {
                        return false;
                    },
                    Cell::Empty => {},
                }
            }
        }
        true
    }

    /// Fills the cells of the piece with its shape, if the piece can be
    /// placed; otherwise the board stays as it is and the result is `false`.
    pub fn place_piece(&mut self, piece: &Piece) -> (done: bool)
        ensures
            done == accepts(old(self)@, piece@),
            done ==> final(self)@ == placed(old(self)@, piece@),
            !done ==> *final(self) == *old(self),
    {
        if !self.can_place(piece) {
            return false;
        }
        let offsets = piece.get_block_offsets();
        assert(self@ =~~= filled(old(self)@, piece@.cells().take(0), piece.piece_type));
        for i in 0..4
            invariant
                accepts(old(self)@, piece@),
                forall|k: int|
                    0 <= k < 4 ==> (#[trigger] offsets[k]).0 == block_offsets(
                        piece.piece_type,
                        piece.rotation,
                    )[k].0 && offsets[k].1 == block_offsets(piece.piece_type, piece.rotation)[k].1,
                self@ == filled(old(self)@, piece@.cells().take(i as int), piece.piece_type),
        {
            proof {
                lemma_block_offsets_shape(piece.piece_type, piece.rotation);
            }
            let row: i64 = piece.row as i64 + offsets[i].0 as i64;
            let col: i64 = piece.col as i64 + offsets[i].1 as i64;
            let ghost cells = piece@.cells();
            assert(cells[i as int] == (row as int, col as int));
            assert(cell_free(old(self)@, cells[i as int]));
            assert(cells.take(i + 1) =~= cells.take(i as int).push(cells[i as int]));
            assert forall|cell: (int, int)|
                cells.take(i + 1).contains(cell) <==> cells.take(i as int).contains(cell) || cell
                    == cells[i as int] by {
                if cells.take(i as int).contains(cell) {
                    let k = choose|k: int|
                        0 <= k < cells.take(i as int).len() && cells.take(i as int)[k] == cell;
                    assert(cells.take(i + 1)[k] == cell);
                }
                assert(cells.take(i + 1)[i as int] == cells[i as int]);
            }
            let ghost prev = self@;
            if row >= 0 {
                self.grid[row as usize][col as usize] = Cell::Filled(piece.piece_type);
            }
            proof {
                let next = filled(old(self)@, cells.take(i + 1), piece.piece_type);
                assert forall|r: int, c: int| in_bounds(r, c) implies #[trigger] self@[r][c]
                    == next[r][c] by {
                    assert(prev[r][c] == if cells.take(i as int).contains((r, c)) {
                        Cell::Filled(piece.piece_type)
                    } else {
                        old(self)@[r][c]
                    });
                    if (r, c) == (row as int, col as int) {
                        assert(cells.take(i + 1).contains((r, c)));
                    } else {
                        assert(self@[r][c] == prev[r][c]);
                    }
                }
                assert(self@ =~~= next);
            }
        }
        assert(piece@.cells().take(4) =~= piece@.cells());
        true
    }

    /// Removes every complete row. For each removed row the rows above it
    /// move down by one and an empty row enters at the top. Returns the
    /// number of rows removed.
    pub fn clear_lines(&mut self) -> (lines: usize)
        ensures
            lines == complete_rows(old(self)@),
            final(self)@ == cleared(old(self)@),
    {
        let ghost keep = |row: Seq<Cell>| !row_complete(row);
        let ghost before = old(self)@;
        let mut lines: usize = 0;
        // Rows of the old grid with an index below `pending` are still to be
        // examined; the row with old index `pending - 1` now sits `lines`
        // rows further down.
        let mut pending: usize = BOARD_HEIGHT;
        proof {
            reveal(Seq::filter);
            assert(before.skip(BOARD_HEIGHT as int) =~= Seq::<Seq<Cell>>::empty());
            assert(before.take(BOARD_HEIGHT as int) =~= before);
            assert(self@ =~= Seq::new(0, |row: int| empty_row()) + before.take(
                BOARD_HEIGHT as int,
            ) + before.skip(BOARD_HEIGHT as int).filter(keep));
        }
        while pending > 0
            invariant
                keep == |row: Seq<Cell>| !row_complete(row),
                before == old(self)@,
                before.len() == BOARD_HEIGHT,
                pending <= BOARD_HEIGHT,
                lines + pending + before.skip(pending as int).filter(keep).len() == BOARD_HEIGHT,
                self@ == Seq::new(lines as nat, |row: int| empty_row()) + before.take(
                    pending as int,
                ) + before.skip(pending as int).filter(keep),
            decreases pending,
        {
            let row: usize = pending - 1 + lines;
            let ghost kept = before.skip(pending as int).filter(keep);
            let ghost top = Seq::new(lines as nat, |row: int| empty_row());
            proof {
                assert(self@[row as int] == before[pending - 1]);
                assert(before.skip(pending - 1) =~= seq![before[pending - 1]] + before.skip(
                    pending as int,
                ));
                Seq::filter_distributes_over_add(
                    seq![before[pending - 1]],
                    before.skip(pending as int),
                    keep,
                );
                reveal_with_fuel(Seq::filter, 2);
                assert(seq![before[pending - 1]].drop_last() =~= Seq::<Seq<Cell>>::empty());
                assert(seq![before[pending - 1]].filter(keep) =~= if keep(before[pending - 1]) {
                    seq![before[pending - 1]]
                } else {
                    Seq::<Seq<Cell>>::empty()
                });
            }
            if self.is_line_complete(row) {
                self.remove_line(row);
                lines += 1;
                assert(self@ =~= Seq::new(lines as nat, |row: int| empty_row()) + before.take(
                    pending - 1,
                ) + before.skip(pending - 1).filter(keep));
            } else {
                assert(self@ =~= top + before.take(pending - 1) + before.skip(pending - 1).filter(
                    keep,
                ));
            }
            pending -= 1;
        }
        proof {
            assert(before.skip(0) =~= before);
            assert(before.take(0) =~= Seq::<Seq<Cell>>::empty());
            assert(self@ =~= cleared(before));
        }
        lines
    }

    /// Whether the row with the given index exists and is complete.
    fn is_line_complete(&self, row: usize) -> (complete: bool)
        ensures
            complete == (row < BOARD_HEIGHT && row_complete(self@[row as int])),
    {
        if row >= BOARD_HEIGHT {
            return false;
        }
        for col in 0..BOARD_WIDTH
            invariant
                row < BOARD_HEIGHT,
                forall|k: int| 0 <= k < col ==> #[trigger] self@[row as int][k] != Cell::Empty,
        {
            match self.grid[row][col] {
                Cell::Empty => {
                    return false;
                },
                Cell::Filled(_) => {},
            }
        }
        true
    }

    /// Removes the row with the given index: the rows above it move down by
    /// one and the top row becomes empty. Without such a row nothing changes.
    fn remove_line(&mut self, row: usize)
        ensures
            row < BOARD_HEIGHT ==> final(self)@ == without_row(old(self)@, row as int),
            row >= BOARD_HEIGHT ==> *final(self) == *old(self),
    {
        if row >= BOARD_HEIGHT {
            return ;
        }
        let mut r: usize = row;
        while r > 0
            invariant
                r <= row < BOARD_HEIGHT,
                forall|k: int| 0 <= k <= r ==> #[trigger] self.grid[k] == old(self).grid[k],
                forall|k: int| r < k <= row ==> #[trigger] self.grid[k] == old(self).grid[k - 1],
                forall|k: int|
                    row < k < BOARD_HEIGHT ==> #[trigger] self.grid[k] == old(self).grid[k],
            decreases r,
        {
            self.grid[r] = self.grid[r - 1];
            r -= 1;
        }
        self.grid[0] = [Cell::Empty; BOARD_WIDTH];
        proof {
            let after = without_row(old(self)@, row as int);
            assert(self@[0] =~= empty_row());
            assert forall|k: int| 0 <= k < BOARD_HEIGHT implies #[trigger] self@[k] == after[k] by {
                if 0 < k <= row {
                    assert(self.grid[k] == old(self).grid[k - 1]);
                } else if k > row {
                    assert(self.grid[k] == old(self).grid[k]);
                }
            }
            assert(self@ =~= after);
        }
    }

    /// Whether the top row holds a filled cell.
    pub fn is_top_blocked(&self) -> (blocked: bool)
        ensures
            blocked == top_blocked(self@),
    {
        for col in 0..BOARD_WIDTH
            invariant
                forall|k: int| 0 <= k < col ==> #[trigger] self@[0][k] == Cell::Empty,
        {
            match self.grid[0][col] {
                Cell::Filled(_) => {
                    return true;
                },
                Cell::Empty => {},
            }
        }
        false
    }

    /// Empties every cell.
    pub fn clear(&mut self)
        ensures
            final(self)@ == empty_grid(),
    {
        self.grid = [[Cell::Empty; BOARD_WIDTH]; BOARD_HEIGHT];
        assert(self@ =~~= empty_grid());
    }

    /// Whether no cell is filled.
    pub fn is_perfect_clear(&self) -> (clear: bool)
        ensures
            clear == all_empty(self@),
    {
        for row in 0..BOARD_HEIGHT
            invariant
                forall|r: int, c: int|
                    0 <= r < row && 0 <= c < BOARD_WIDTH ==> #[trigger] self@[r][c] == Cell::Empty,
        {
            for col in 0..BOARD_WIDTH
                invariant
                    row < BOARD_HEIGHT,
                    forall|r: int, c: int|
                        0 <= r < row && 0 <= c < BOARD_WIDTH ==> #[trigger] self@[r][c]
                            == Cell::Empty,
                    forall|c: int| 0 <= c < col ==> #[trigger] self@[row as int][c] == Cell::Empty,
            {
                match self.grid[row][col] {
                    Cell::Filled(_) => {
                        return false;
                    },
                    Cell::Empty => {},
                }
            }
        }
        true
    }
}

} // verus!
