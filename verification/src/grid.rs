//! The board as a mathematical value, and what holds of it: how a column
//! fills, which cells lie on the lines through a cell, and that no coin ever
//! floats.

use vstd::prelude::*;

use crate::board::CellValue;
use crate::{COLS, ROWS};

verus! {

/// The board as a mathematical value: `grid[col][row]` is the cell in column
/// `col`, counted from the left, and row `row`, counted from the bottom.
pub type Grid = Seq<Seq<CellValue>>;

/// A grid of `COLS` columns with `ROWS` cells each.
pub open spec fn well_formed(grid: Grid) -> bool {
    &&& grid.len() == COLS
    &&& forall|col: int| 0 <= col < COLS ==> (#[trigger] grid[col]).len() == ROWS
}

/// The grid in which every cell is empty.
pub open spec fn empty_grid() -> Grid {
    Seq::new(COLS as nat, |col: int| Seq::new(ROWS as nat, |row: int| CellValue::EMPTY))
}

/// The grid `grid` with the cell at (`col`, `row`) replaced by `value`.
pub open spec fn with_cell(grid: Grid, col: int, row: int, value: CellValue) -> Grid {
    grid.update(col, grid[col].update(row, value))
}

/// Row `row` of the grid, from left to right.
pub open spec fn row_of(grid: Grid, row: int) -> Seq<CellValue> {
    Seq::new(COLS as nat, |col: int| grid[col][row])
}

/// The smaller of two integers.
pub open spec fn smaller(a: int, b: int) -> int {
    if a <= b {
        a
    } else {
        b
    }
}

/// The diagonal through (`col`, `row`) on which column and row grow together,
/// from its lower left end on the board to its upper right end.
pub open spec fn rising_diagonal(grid: Grid, col: int, row: int) -> Seq<CellValue> {
    let back = smaller(col, row);
    let first_col = col - back;
    let first_row = row - back;
    let length = smaller(COLS - first_col, ROWS - first_row);
    Seq::new(length as nat, |i: int| grid[first_col + i][first_row + i])
}

/// The diagonal through (`col`, `row`) on which the row falls as the column
/// grows, from its upper left end on the board to its lower right end.
pub open spec fn falling_diagonal(grid: Grid, col: int, row: int) -> Seq<CellValue> {
    let back = smaller(col, ROWS - 1 - row);
    let first_col = col - back;
    let first_row = row + back;
    let length = smaller(COLS - first_col, first_row + 1);
    Seq::new(length as nat, |i: int| grid[first_col + i][first_row - i])
}

/// The lowest empty cell of a column that is listed from bottom to top: the
/// smallest index that holds `EMPTY`, or `None` where the column is full.
pub open spec fn lowest_empty(column: Seq<CellValue>) -> Option<int> {
    column.index_of_first(CellValue::EMPTY)
}

/// `row` is an empty cell of `column` with no empty cell below it.
pub open spec fn is_lowest_empty(column: Seq<CellValue>, row: int) -> bool {
    &&& 0 <= row < column.len()
    &&& column[row] == CellValue::EMPTY
    &&& forall|below: int| 0 <= below < row ==> column[below] != CellValue::EMPTY
}

/// No cell of `column` is empty.
pub open spec fn is_full(column: Seq<CellValue>) -> bool {
    forall|row: int| 0 <= row < column.len() ==> column[row] != CellValue::EMPTY
}

/// The grid after `coin` was dropped into column `col`: the coin lies in the
/// lowest empty cell of that column. A full column takes no coin.
pub open spec fn drop_coin(grid: Grid, col: int, coin: CellValue) -> Grid {
    match lowest_empty(grid[col]) {
        Some(row) => with_cell(grid, col, row, coin),
        None => grid,
    }
}

/// Below an occupied cell of `column` every cell is occupied.
pub open spec fn column_settled(column: Seq<CellValue>) -> bool {
    forall|lower: int, upper: int|
        0 <= lower <= upper < column.len() && column[lower] == CellValue::EMPTY
            ==> column[upper] == CellValue::EMPTY
}

/// No coin of the grid floats: each column is occupied from the bottom up
/// without a gap.
pub open spec fn settled(grid: Grid) -> bool {
    forall|col: int| 0 <= col < COLS ==> column_settled(#[trigger] grid[col])
}

/// `lowest_empty` finds the one lowest empty cell of a column, and finds
/// none exactly in a full column.
pub proof fn lemma_lowest_empty(column: Seq<CellValue>)
    ensures
        match lowest_empty(column) {
            Some(row) => is_lowest_empty(column, row),
            None => is_full(column),
        },
        forall|row: int| is_lowest_empty(column, row) ==> lowest_empty(column) == Some(row),
{
    column.index_of_first_ensures(CellValue::EMPTY);
}

/// Dropping a coin leaves no coin floating.
pub proof fn lemma_drop_keeps_settled(grid: Grid, col: int, coin: CellValue)
    requires
        well_formed(grid),
        0 <= col < COLS,
        settled(grid),
    ensures
        well_formed(drop_coin(grid, col, coin)),
        settled(drop_coin(grid, col, coin)),
{
    lemma_lowest_empty(grid[col]);
}

/// On the empty grid no coin floats, every cell is empty, and the lowest
/// empty row of every column is row 0.
pub proof fn lemma_empty_grid()
    ensures
        well_formed(empty_grid()),
        settled(empty_grid()),
        forall|col: int, row: int|
            0 <= col < COLS && 0 <= row < ROWS ==> #[trigger] empty_grid()[col][row]
                == CellValue::EMPTY,
        forall|col: int|
            0 <= col < COLS ==> lowest_empty(#[trigger] empty_grid()[col]) == Some(0int),
{
    assert forall|col: int| 0 <= col < COLS implies lowest_empty(#[trigger] empty_grid()[col])
        == Some(0int) by {
        lemma_lowest_empty(empty_grid()[col]);
        assert(is_lowest_empty(empty_grid()[col], 0));
    }
}

/// The grid after the coins of `coins` were dropped into column `col` one
/// after the other, first coin first.
pub open spec fn drop_coins(grid: Grid, col: int, coins: Seq<CellValue>) -> Grid
    decreases coins.len(),
{
    if coins.len() == 0 {
        grid
    } else {
        drop_coins(drop_coin(grid, col, coins[0]), col, coins.drop_first())
    }
}

/// The number of cells at the bottom of `column` that are known to be
/// occupied: the index of its lowest empty cell, or its length where it is
/// full.
pub open spec fn occupied_below(column: Seq<CellValue>) -> int {
    match lowest_empty(column) {
        Some(row) => row,
        None => column.len() as int,
    }
}

/// Each coin dropped into a column raises its lowest empty row, until the
/// column is full.
pub proof fn lemma_drops_raise_column(grid: Grid, col: int, coins: Seq<CellValue>)
    requires
        well_formed(grid),
        0 <= col < COLS,
        forall|i: int| 0 <= i < coins.len() ==> coins[i] != CellValue::EMPTY,
    ensures
        well_formed(drop_coins(grid, col, coins)),
        occupied_below(drop_coins(grid, col, coins)[col]) >= smaller(
            ROWS as int,
            occupied_below(grid[col]) + coins.len(),
        ),
    decreases coins.len(),
{
    lemma_lowest_empty(grid[col]);
    if coins.len() > 0 {
        let next = drop_coin(grid, col, coins[0]);
        lemma_lowest_empty(next[col]);
        lemma_drops_raise_column(next, col, coins.drop_first());
    }
}

/// A column that took `ROWS` coins is full, whatever it held before: its
/// lowest empty row is `None`.
pub proof fn lemma_column_full_after_rows_drops(grid: Grid, col: int, coins: Seq<CellValue>)
    requires
        well_formed(grid),
        0 <= col < COLS,
        coins.len() == ROWS,
        forall|i: int| 0 <= i < coins.len() ==> coins[i] != CellValue::EMPTY,
    ensures
        lowest_empty(drop_coins(grid, col, coins)[col]) is None,
{
    lemma_drops_raise_column(grid, col, coins);
    lemma_lowest_empty(grid[col]);
    lemma_lowest_empty(drop_coins(grid, col, coins)[col]);
}

/// The lines through a cell of the board: a column has `ROWS` cells and a
/// row `COLS`; a diagonal has between one and `ROWS` cells, and four or more
/// exactly where it does not pass too close to a corner. Each line holds the
/// cell that it was asked for.
pub proof fn lemma_lines_through_cell(grid: Grid, col: int, row: int)
    requires
        well_formed(grid),
        0 <= col < COLS,
        0 <= row < ROWS,
    ensures
        grid[col].len() == ROWS,
        row_of(grid, row).len() == COLS,
        row_of(grid, row)[col] == grid[col][row],
        1 <= rising_diagonal(grid, col, row).len() <= ROWS,
        rising_diagonal(grid, col, row).len() >= 4 <==> -2 <= col - row <= 3,
        rising_diagonal(grid, col, row)[smaller(col, row)] == grid[col][row],
        1 <= falling_diagonal(grid, col, row).len() <= ROWS,
        falling_diagonal(grid, col, row).len() >= 4 <==> 3 <= col + row <= 8,
        falling_diagonal(grid, col, row)[smaller(col, ROWS - 1 - row)] == grid[col][row],
{
}

} // verus!
