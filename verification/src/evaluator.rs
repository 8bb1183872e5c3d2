//! The board evaluator: a weighted sum of structural measures of a board.
//!
//! Weights are fixed-point numbers in millionths, held as integers, and so
//! is the score: a weight of -0.35663 is written -356630. The score of a
//! board is exact.

use vstd::prelude::*;
use crate::board::{complete_rows, grid_shape, row_complete, Board, Cell};
use crate::game::{count_of, Game};
use crate::{BOARD_HEIGHT, BOARD_WIDTH};

verus! {

/// The number of units of a weight that make up 1.
pub const WEIGHT_SCALE: i64 = 1_000_000;

/// How far a column must lie below its neighbours to count as a well.
pub const WELL_THRESHOLD: u32 = 3;

/// The largest squared depth of a well: the square of `BOARD_HEIGHT`.
pub const MAX_SQUARED_DEPTH: u32 = 484;

/// A bound that every measure of a board stays below.
pub const MEASURE_LIMIT: u32 = 10_000;

/// The weights of the measures, in millionths.
#[derive(Clone, Copy, PartialEq, Eq, Debug, Structural)]
pub struct EvaluationWeights {
    /// Weight of the sum of the column heights.
    pub aggregate_height_weight: i32,
    /// Weight of the number of complete lines.
    pub complete_lines_weight: i32,
    /// Weight of the number of holes.
    pub holes_weight: i32,
    /// Weight of the bumpiness.
    pub bumpiness_weight: i32,
    /// Weight of the landing height. No measure uses it yet.
    pub landing_height_weight: i32,
    /// Weight of the well sum.
    pub well_weight: i32,
}

/// Default weight of the aggregate height: -0.510066.
pub const DEFAULT_AGGREGATE_HEIGHT_WEIGHT: i32 = -510066;

/// Default weight of complete lines: 0.760666.
pub const DEFAULT_COMPLETE_LINES_WEIGHT: i32 = 760666;

/// Default weight of holes: -0.35663.
pub const DEFAULT_HOLES_WEIGHT: i32 = -356630;

/// Default weight of the bumpiness: -0.184483.
pub const DEFAULT_BUMPINESS_WEIGHT: i32 = -184483;

/// Default weight of the landing height: 0.
pub const DEFAULT_LANDING_HEIGHT_WEIGHT: i32 = 0;

/// Default weight of wells: 0.3.
pub const DEFAULT_WELL_WEIGHT: i32 = 300000;

/// The default weights.
pub open spec fn default_weights() -> EvaluationWeights {
    EvaluationWeights {
        aggregate_height_weight: DEFAULT_AGGREGATE_HEIGHT_WEIGHT,
        complete_lines_weight: DEFAULT_COMPLETE_LINES_WEIGHT,
        holes_weight: DEFAULT_HOLES_WEIGHT,
        bumpiness_weight: DEFAULT_BUMPINESS_WEIGHT,
        landing_height_weight: DEFAULT_LANDING_HEIGHT_WEIGHT,
        well_weight: DEFAULT_WELL_WEIGHT,
    }
}

impl Default for EvaluationWeights {
    fn default() -> (weights: EvaluationWeights)
        ensures
            weights == default_weights(),
    {
        EvaluationWeights {
            aggregate_height_weight: DEFAULT_AGGREGATE_HEIGHT_WEIGHT,
            complete_lines_weight: DEFAULT_COMPLETE_LINES_WEIGHT,
            holes_weight: DEFAULT_HOLES_WEIGHT,
            bumpiness_weight: DEFAULT_BUMPINESS_WEIGHT,
            landing_height_weight: DEFAULT_LANDING_HEIGHT_WEIGHT,
            well_weight: DEFAULT_WELL_WEIGHT,
        }
    }
}

/// The index of the topmost filled cell of a column at or below the row
/// `from`, or `BOARD_HEIGHT` if the column is empty from there down.
pub open spec fn top_filled(grid: Seq<Seq<Cell>>, col: int, from: int) -> int
    decreases BOARD_HEIGHT - from,
{
    if from >= BOARD_HEIGHT {
        BOARD_HEIGHT as int
    } else if grid[from][col] != Cell::Empty {
        from
    } else {
        top_filled(grid, col, from + 1)
    }
}

/// The height of a column: the distance from the floor to its topmost
/// filled cell, that cell included; 0 for an empty column.
pub open spec fn column_height(grid: Seq<Seq<Cell>>, col: int) -> int {
    BOARD_HEIGHT - top_filled(grid, col, 0)
}

/// The heights of the columns, from left to right.
pub open spec fn column_heights(grid: Seq<Seq<Cell>>) -> Seq<int> {
    Seq::new(BOARD_WIDTH as nat, |col: int| column_height(grid, col))
}

/// The model of a list of heights.
pub open spec fn heights_of(heights: Seq<u32>) -> Seq<int> {
    Seq::new(heights.len(), |col: int| heights[col] as int)
}

/// Whether a list of heights can be that of a board: one height for each
/// column, none above the top.
pub open spec fn board_heights(heights: Seq<int>) -> bool {
    &&& heights.len() == BOARD_WIDTH
    &&& forall|col: int| 0 <= col < BOARD_WIDTH ==> 0 <= #[trigger] heights[col] <= BOARD_HEIGHT
}

/// The sum of the first `count` heights.
pub open spec fn height_sum(heights: Seq<int>, count: int) -> int
    decreases count,
{
    if count <= 0 {
        0
    } else {
        height_sum(heights, count - 1) + heights[count - 1]
    }
}

/// The aggregate height: the sum of all heights.
pub open spec fn aggregate_height(heights: Seq<int>) -> int {
    height_sum(heights, heights.len() as int)
}

/// The number of empty cells of a column in the rows from `from` up to, but
/// not including, `to`.
pub open spec fn empty_cells(grid: Seq<Seq<Cell>>, col: int, from: int, to: int) -> int
    decreases to - from,
{
    if to <= from {
        0
    } else {
        empty_cells(grid, col, from, to - 1) + count_of(grid[to - 1][col] == Cell::Empty)
    }
}

/// The number of holes of a column of the given height: the empty cells
/// below its topmost cell.
pub open spec fn column_holes(grid: Seq<Seq<Cell>>, col: int, height: int) -> int {
    empty_cells(grid, col, BOARD_HEIGHT - height + 1, BOARD_HEIGHT as int)
}

/// The number of holes in the first `count` columns, for the given heights.
pub open spec fn holes_in(grid: Seq<Seq<Cell>>, heights: Seq<int>, count: int) -> int
    decreases count,
{
    if count <= 0 {
        0
    } else {
        holes_in(grid, heights, count - 1) + column_holes(grid, count - 1, heights[count - 1])
    }
}

/// The number of holes of a board: the empty cells that lie below the
/// topmost filled cell of their column.
pub open spec fn hole_count(grid: Seq<Seq<Cell>>) -> int {
    holes_in(grid, column_heights(grid), BOARD_WIDTH as int)
}

/// The distance between two heights.
pub open spec fn height_gap(a: int, b: int) -> int {
    if a >= b {
        a - b
    } else {
        b - a
    }
}

/// The sum of the distances between the heights of neighbouring columns,
/// over the first `count` pairs of neighbours.
pub open spec fn bumpiness_in(heights: Seq<int>, count: int) -> int
    decreases count,
{
    if count <= 0 {
        0
    } else {
        bumpiness_in(heights, count - 1) + height_gap(heights[count - 1], heights[count])
    }
}

/// The bumpiness: the sum of the distances between the heights of
/// neighbouring columns.
pub open spec fn bumpiness(heights: Seq<int>) -> int {
    bumpiness_in(heights, heights.len() - 1)
}

/// The depth of the well at a column: how far the column lies below the
/// lower of its neighbours, if it lies at least `WELL_THRESHOLD` below each
/// of them, and 0 otherwise. A column at an edge has one neighbour; a lone
/// column has none and is no well.
pub open spec fn well_depth(heights: Seq<int>, col: int) -> int {
    let here = heights[col];
    let has_left = col > 0;
    let has_right = col < heights.len() - 1;
    let left = heights[col - 1];
    let right = heights[col + 1];
    if has_left && has_right {
        if here + WELL_THRESHOLD <= left && here + WELL_THRESHOLD <= right {
            if left <= right {
                left - here
            } else {
                right - here
            }
        } else {
            0
        }
    } else if has_left {
        if here + WELL_THRESHOLD <= left {
            left - here
        } else {
            0
        }
    } else if has_right {
        if here + WELL_THRESHOLD <= right {
            right - here
        } else {
            0
        }
    } else {
        0
    }
}

/// The sum of the squared well depths of the first `count` columns.
pub open spec fn wells_in(heights: Seq<int>, count: int) -> int
    decreases count,
{
    if count <= 0 {
        0
    } else {
        wells_in(heights, count - 1) + well_depth(heights, count - 1) * well_depth(
            heights,
            count - 1,
        )
    }
}

/// The well sum: the sum of the squared well depths of all columns.
pub open spec fn well_sum(heights: Seq<int>) -> int {
    wells_in(heights, heights.len() as int)
}

/// The weighted sum of five measures, in millionths.
pub open spec fn weighted_score(
    weights: EvaluationWeights,
    aggregate_height: int,
    complete_lines: int,
    holes: int,
    bumpiness: int,
    wells: int,
) -> int {
    weights.aggregate_height_weight * aggregate_height + weights.holes_weight * holes
        + weights.complete_lines_weight * complete_lines + weights.bumpiness_weight * bumpiness
        + weights.well_weight * wells
}

/// The score of a board under the given weights, in millionths.
pub open spec fn board_score(weights: EvaluationWeights, grid: Seq<Seq<Cell>>) -> int {
    weighted_score(
        weights,
        aggregate_height(column_heights(grid)),
        complete_rows(grid) as int,
        hole_count(grid),
        bumpiness(column_heights(grid)),
        well_sum(column_heights(grid)),
    )
}

/// With a negative weight for holes, as by default, a board without holes
/// scores strictly higher than a board with one hole whose other measures
/// are the same.
pub proof fn lemma_hole_lowers_score(
    weights: EvaluationWeights,
    aggregate_height: int,
    complete_lines: int,
    bumpiness: int,
    wells: int,
)
    requires
        weights.holes_weight < 0,
    ensures
        default_weights().holes_weight < 0,
        weighted_score(weights, aggregate_height, complete_lines, 0, bumpiness, wells)
            > weighted_score(weights, aggregate_height, complete_lines, 1, bumpiness, wells),
{
}

/// The heights of a board are board heights.
pub proof fn lemma_column_heights(grid: Seq<Seq<Cell>>)
    ensures
        board_heights(column_heights(grid)),
{
    assert forall|col: int| 0 <= col < BOARD_WIDTH implies 0 <= #[trigger] column_heights(
        grid,
    )[col] <= BOARD_HEIGHT by {
        lemma_top_filled_range(grid, col, 0);
    }
}

/// The topmost filled cell at or below a row lies between that row and the
/// floor.
pub proof fn lemma_top_filled_range(grid: Seq<Seq<Cell>>, col: int, from: int)
    requires
        0 <= from <= BOARD_HEIGHT,
    ensures
        from <= top_filled(grid, col, from) <= BOARD_HEIGHT,
    decreases BOARD_HEIGHT - from,
{
    if from < BOARD_HEIGHT && grid[from][col] == Cell::Empty {
        lemma_top_filled_range(grid, col, from + 1);
    }
}

/// The measures of board heights are bounded.
pub proof fn lemma_measures_bounded(heights: Seq<int>, count: int)
    requires
        board_heights(heights),
        0 <= count <= BOARD_WIDTH,
    ensures
        0 <= height_sum(heights, count) <= count * BOARD_HEIGHT,
        count < BOARD_WIDTH ==> 0 <= bumpiness_in(heights, count) <= count * BOARD_HEIGHT,
        0 <= wells_in(heights, count) <= count * MAX_SQUARED_DEPTH,
    decreases count,
{
    if count > 0 {
        lemma_measures_bounded(heights, count - 1);
        let depth = well_depth(heights, count - 1);
        assert(0 <= depth <= BOARD_HEIGHT);
        assert(0 <= depth * depth <= 484) by (nonlinear_arith)
            requires
                0 <= depth <= 22,
        ;
    }
}

/// The number of empty cells in a range of rows is at most its length.
pub proof fn lemma_empty_cells_bounded(grid: Seq<Seq<Cell>>, col: int, from: int, to: int)
    ensures
        0 <= empty_cells(grid, col, from, to),
        from <= to ==> empty_cells(grid, col, from, to) <= to - from,
        to <= from ==> empty_cells(grid, col, from, to) == 0,
    decreases to - from,
{
    if to > from {
        lemma_empty_cells_bounded(grid, col, from, to - 1);
    }
}

/// The number of holes in the first columns of a board is bounded.
pub proof fn lemma_holes_bounded(grid: Seq<Seq<Cell>>, heights: Seq<int>, count: int)
    requires
        board_heights(heights),
        0 <= count <= BOARD_WIDTH,
    ensures
        0 <= holes_in(grid, heights, count) <= count * BOARD_HEIGHT,
    decreases count,
{
    if count > 0 {
        lemma_holes_bounded(grid, heights, count - 1);
        lemma_empty_cells_bounded(
            grid,
            count - 1,
            BOARD_HEIGHT - heights[count - 1] + 1,
            BOARD_HEIGHT as int,
        );
    }
}

/// Scores boards by a weighted sum of their measures.
pub struct BoardEvaluator {
    weights: EvaluationWeights,
}

impl BoardEvaluator {
    /// The weights of the evaluator.
    pub closed spec fn weights(&self) -> EvaluationWeights {
        self.weights
    }

    /// Creates an evaluator with the default weights.
    pub fn new() -> (evaluator: BoardEvaluator)
        ensures
            evaluator.weights() == default_weights(),
    {
        BoardEvaluator { weights: EvaluationWeights::default() }
    }

    /// Creates an evaluator with the given weights.
    pub fn with_weights(weights: EvaluationWeights) -> (evaluator: BoardEvaluator)
        ensures
            evaluator.weights() == weights,
    {
        BoardEvaluator { weights }
    }

    /// The score of the board of a game, in millionths: the weighted sum of
    /// aggregate height, holes, complete lines, bumpiness, and well sum.
    pub fn evaluate(&self, game: &Game) -> (score: i64)
        ensures
            score == board_score(self.weights(), game@.board),
    {
        let board = &game.board;
        let heights = self.get_column_heights(board);
        proof {
            lemma_column_heights(board@);
            assert(heights_of(heights@) =~= column_heights(board@));
            lemma_measures_bounded(column_heights(board@), BOARD_WIDTH as int);
            lemma_measures_bounded(column_heights(board@), BOARD_WIDTH - 1);
            lemma_holes_bounded(board@, column_heights(board@), BOARD_WIDTH as int);
        }
        let mut aggregate_height: u32 = 0;
        for col in 0..BOARD_WIDTH
            invariant
                heights@.len() == BOARD_WIDTH,
                board_heights(heights_of(heights@)),
                aggregate_height == height_sum(heights_of(heights@), col as int),
                aggregate_height <= col * BOARD_HEIGHT,
        {
            assert(heights_of(heights@)[col as int] <= BOARD_HEIGHT);
            aggregate_height += heights[col];
        }
        let holes = self.count_holes(board, heights.as_slice());
        let complete_lines = self.count_complete_lines(board);
        let roughness = self.calculate_bumpiness(heights.as_slice());
        let wells = self.calculate_wells(heights.as_slice());
        proof {
            board.lemma_shape();
            crate::board::lemma_complete_rows_bounded(board@);
        }
        let height_term = Self::weigh(self.weights.aggregate_height_weight, aggregate_height);
        let holes_term = Self::weigh(self.weights.holes_weight, holes);
        let lines_term = Self::weigh(self.weights.complete_lines_weight, complete_lines);
        let bumpiness_term = Self::weigh(self.weights.bumpiness_weight, roughness);
        let well_term = Self::weigh(self.weights.well_weight, wells);
        height_term + holes_term + lines_term + bumpiness_term + well_term
    }

    /// The product of a weight and a measure.
    fn weigh(weight: i32, measure: u32) -> (term: i64)
        requires
            measure <= MEASURE_LIMIT,
        ensures
            term == weight * measure,
            i32::MIN * MEASURE_LIMIT <= term <= -i32::MIN * MEASURE_LIMIT,
    {
        assert(-0x8000_0000 * 10000 <= weight * measure <= 0x8000_0000 * 10000)
            by (nonlinear_arith)
            requires
                -0x8000_0000 <= weight <= 0x8000_0000,
                0 <= measure <= 10000,
        ;
        weight as i64 * measure as i64
    }

    /// Whether the cell at the given coordinates is empty.
    fn is_empty_at(board: &Board, row: usize, col: usize) -> (empty: bool)
        requires
            row < BOARD_HEIGHT,
            col < BOARD_WIDTH,
        ensures
            empty == (board@[row as int][col as int] == Cell::Empty),
    {
        match board.get_cell(row, col) {
            Some(cell) => match cell {
                Cell::Empty => true,
                Cell::Filled(_) => false,
            },
            None => false,
        }
    }

    /// The height of each column, from left to right.
    pub fn get_column_heights(&self, board: &Board) -> (heights: Vec<u32>)
        ensures
            heights@.len() == BOARD_WIDTH,
            forall|col: int|
                0 <= col < BOARD_WIDTH ==> #[trigger] heights@[col] == column_height(board@, col),
    {
        let mut heights: Vec<u32> = Vec::new();
        for col in 0..BOARD_WIDTH
            invariant
                heights@.len() == col,
                forall|c: int| 0 <= c < col ==> #[trigger] heights@[c] == column_height(board@, c),
        {
            let mut row: usize = 0;
            while row < BOARD_HEIGHT && Self::is_empty_at(board, row, col)
                invariant
                    col < BOARD_WIDTH,
                    row <= BOARD_HEIGHT,
                    top_filled(board@, col as int, 0) == top_filled(board@, col as int, row as int),
                decreases BOARD_HEIGHT - row,
            {
                row += 1;
            }
            heights.push((BOARD_HEIGHT - row) as u32);
        }
        heights
    }

    /// The number of holes of a board whose columns have the given heights:
    /// the empty cells below the topmost cell of each column.
    pub fn count_holes(&self, board: &Board, column_heights: &[u32]) -> (holes: u32)
        requires
            board_heights(heights_of(column_heights@)),
        ensures
            holes == holes_in(board@, heights_of(column_heights@), BOARD_WIDTH as int),
    {
        let mut holes: u32 = 0;
        for col in 0..BOARD_WIDTH
            invariant
                board_heights(heights_of(column_heights@)),
                column_heights@.len() == BOARD_WIDTH,
                holes == holes_in(board@, heights_of(column_heights@), col as int),
                holes <= col * BOARD_HEIGHT,
        {
            assert(heights_of(column_heights@)[col as int] <= BOARD_HEIGHT);
            let col_height: usize = column_heights[col] as usize;
            let top_row: usize = BOARD_HEIGHT - col_height;
            let ghost before = holes;
            let mut row: usize = top_row + 1;
            proof {
                lemma_empty_cells_bounded(board@, col as int, top_row + 1, top_row + 1);
            }
            while row < BOARD_HEIGHT
                invariant
                    col < BOARD_WIDTH,
                    top_row + 1 <= row,
                    row <= BOARD_HEIGHT || row == top_row + 1,
                    before <= col * BOARD_HEIGHT,
                    holes == before + empty_cells(board@, col as int, top_row + 1, row as int),
                    holes <= before + (row - top_row - 1),
                decreases BOARD_HEIGHT + 1 - row,
            {
                if Self::is_empty_at(board, row, col) {
                    holes += 1;
                }
                row += 1;
            }
            proof {
                lemma_empty_cells_bounded(board@, col as int, top_row + 1, BOARD_HEIGHT as int);
                lemma_empty_cells_bounded(board@, col as int, top_row + 1, row as int);
            }
        }
        holes
    }

    /// The number of complete lines of a board.
    pub fn count_complete_lines(&self, board: &Board) -> (lines: u32)
        ensures
            lines == complete_rows(board@),
    {
        let ghost keep = |row: Seq<Cell>| !row_complete(row);
        let mut complete_lines: u32 = 0;
        proof {
            board.lemma_shape();
            reveal(Seq::filter);
            assert(board@.take(0) =~= Seq::<Seq<Cell>>::empty());
        }
        for row in 0..BOARD_HEIGHT
            invariant
                keep == |row: Seq<Cell>| !row_complete(row),
                grid_shape(board@),
                complete_lines + board@.take(row as int).filter(keep).len() == row,
        {
            let mut line_complete = true;
            let mut col: usize = 0;
            while col < BOARD_WIDTH && line_complete
                invariant
                    row < BOARD_HEIGHT,
                    col <= BOARD_WIDTH,
                    grid_shape(board@),
                    line_complete ==> forall|c: int|
                        0 <= c < col ==> #[trigger] board@[row as int][c] != Cell::Empty,
                    !line_complete ==> !row_complete(board@[row as int]),
                decreases BOARD_WIDTH - col,
            {
                if Self::is_empty_at(board, row, col) {
                    line_complete = false;
                }
                col += 1;
            }
            proof {
                let prefix = board@.take(row as int);
                assert(board@.take(row + 1) =~= prefix.push(board@[row as int]));
                assert(prefix.push(board@[row as int]).drop_last() =~= prefix);
                reveal(Seq::filter);
            }
            if line_complete {
                complete_lines += 1;
            }
        }
        assert(board@.take(BOARD_HEIGHT as int) =~= board@);
        complete_lines
    }

    /// The bumpiness of the given heights: the sum of the distances between
    /// the heights of neighbouring columns.
    pub fn calculate_bumpiness(&self, column_heights: &[u32]) -> (total: u32)
        requires
            board_heights(heights_of(column_heights@)),
        ensures
            total == bumpiness(heights_of(column_heights@)),
    {
        let mut total: u32 = 0;
        for i in 0..column_heights.len() - 1
            invariant
                board_heights(heights_of(column_heights@)),
                column_heights@.len() == BOARD_WIDTH,
                total == bumpiness_in(heights_of(column_heights@), i as int),
                total <= i * BOARD_HEIGHT,
        {
            assert(heights_of(column_heights@)[i as int] <= BOARD_HEIGHT);
            assert(heights_of(column_heights@)[i + 1] <= BOARD_HEIGHT);
            let here: u32 = column_heights[i];
            let next: u32 = column_heights[i + 1];
            total += if here >= next {
                here - next
            } else {
                next - here
            };
        }
        total
    }

    /// The well sum of the given heights: for each column that lies at
    /// least `WELL_THRESHOLD` below each of its neighbours, the square of
    /// its distance to the lower of them.
    pub fn calculate_wells(&self, column_heights: &[u32]) -> (wells: u32)
        requires
            board_heights(heights_of(column_heights@)),
        ensures
            wells == well_sum(heights_of(column_heights@)),
    {
        let mut well_sum: u32 = 0;
        let last: usize = column_heights.len() - 1;
        for i in 0..column_heights.len()
            invariant
                board_heights(heights_of(column_heights@)),
                column_heights@.len() == BOARD_WIDTH,
                last == BOARD_WIDTH - 1,
                well_sum == wells_in(heights_of(column_heights@), i as int),
                well_sum <= i * MAX_SQUARED_DEPTH,
        {
            let ghost heights = heights_of(column_heights@);
            assert(heights[i as int] <= BOARD_HEIGHT);
            let current_height: u32 = column_heights[i];
            let mut lowest_neighbour: Option<u32> = None;
            if i > 0 {
                assert(heights[i - 1] <= BOARD_HEIGHT);
                lowest_neighbour = Some(column_heights[i - 1]);
            }
            if i < last {
                assert(heights[i + 1] <= BOARD_HEIGHT);
                let right_height: u32 = column_heights[i + 1];
                lowest_neighbour = match lowest_neighbour {
                    Some(left_height) if left_height <= right_height => Some(left_height),
                    _ => Some(right_height),
                };
            }
            let mut depth: u32 = 0;
            if let Some(neighbour) = lowest_neighbour {
                if current_height + WELL_THRESHOLD <= neighbour {
                    depth = neighbour - current_height;
                }
            }
            assert(depth == well_depth(heights, i as int));
            assert(depth * depth <= 484) by (nonlinear_arith)
                requires
                    0 <= depth <= 22,
            ;
            well_sum += depth * depth;
        }
        well_sum
    }
}

} // verus!
