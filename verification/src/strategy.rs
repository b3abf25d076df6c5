//! The computer's side: how it picks the column for its next coin.

use vstd::prelude::*;

use crate::board::Board;
use crate::grid::{lowest_empty, Grid};
use crate::{COLS, ROWS};

pub mod random;

verus! {

/// Some column of the grid has room for a coin.
pub open spec fn has_open_column(grid: Grid) -> bool {
    exists|col: int| 0 <= col < COLS && lowest_empty(#[trigger] grid[col]) is Some
}

/// `chosen` names a column of the board and the row in which a coin dropped
/// into that column comes to lie.
pub open spec fn is_legal_move(grid: Grid, chosen: (u8, u8)) -> bool {
    &&& chosen.0 < COLS
    &&& chosen.1 < ROWS
    &&& lowest_empty(grid[chosen.0 as int]) == Some(chosen.1 as int)
}

/// The number of columns with room among the columns left of `upto`.
pub open spec fn open_columns_before(grid: Grid, upto: int) -> int
    decreases upto,
{
    if upto <= 0 {
        0
    } else {
        open_columns_before(grid, upto - 1) + if lowest_empty(grid[upto - 1]) is Some {
            1int
        } else {
            0int
        }
    }
}

/// The strategies that can be asked for by name.
#[derive(PartialEq, Eq, Structural, Clone, Copy, Debug)]
pub enum StrategyKind {
    /// Looks ahead before it moves.
    BackPropagation,
    /// Plays at random.
    Random,
}

/// The strategy that `strategy_id` names: `"back"` asks for the strategy that
/// looks ahead, every other name for the random one.
pub fn select_strategy(strategy_id: &str) -> (selected: StrategyKind)
    ensures
        selected == if strategy_id@ == "back"@ {
            StrategyKind::BackPropagation
        } else {
            StrategyKind::Random
        },
{
    if strategy_id.to_owned() == "back".to_owned() {
        StrategyKind::BackPropagation
    } else {
        StrategyKind::Random
    }
}

/// A way to choose the computer's next move.
pub trait Strategy {
    /// Chooses a column with room, and tells the row that a coin dropped
    /// there will take. The board is not changed.
    fn make_move(&mut self, board: &Board) -> (chosen: (u8, u8))
        requires
            board.wf(),
            has_open_column(board@),
        ensures
            is_legal_move(board@, chosen),
    ;
}

/// The count of open columns grows from left to right, by one at each column
/// with room, and is positive exactly where some column has room.
pub proof fn lemma_open_columns(grid: Grid, upto: int)
    requires
        0 <= upto <= COLS,
    ensures
        0 <= open_columns_before(grid, upto) <= upto,
        forall|col: int|
            0 <= col <= upto ==> open_columns_before(grid, col) <= open_columns_before(grid, upto),
        open_columns_before(grid, upto) > 0 <==> exists|col: int|
            0 <= col < upto && lowest_empty(#[trigger] grid[col]) is Some,
    decreases upto,
{
    if upto > 0 {
        lemma_open_columns(grid, upto - 1);
    }
}

/// The number of columns of the board that have room for a coin.
pub fn count_open_columns(board: &Board) -> (count: u8)
    requires
        board.wf(),
    ensures
        count == open_columns_before(board@, COLS as int),
        count <= COLS,
{
    let mut count: u8 = 0;
    let mut col: u8 = 0;
    while col < COLS
        invariant
            board.wf(),
            col <= COLS,
            count <= col,
            count == open_columns_before(board@, col as int),
        decreases COLS - col,
    {
        if board.get_lowest_empty_row(&col).is_some() {
            count += 1;
        }
        col += 1;
    }
    count
}

/// The `n`-th column with room, counted from the left and from 0, together
/// with its lowest empty row; `None` where no more than `n` columns have
/// room.
pub fn nth_open_column(board: &Board, n: u8) -> (found: Option<(u8, u8)>)
    requires
        board.wf(),
    ensures
        match found {
            Some(chosen) => is_legal_move(board@, chosen) && open_columns_before(
                board@,
                chosen.0 as int,
            ) == n,
            None => open_columns_before(board@, COLS as int) <= n,
        },
{
    let mut seen: u8 = 0;
    let mut col: u8 = 0;
    while col < COLS
        invariant
            board.wf(),
            col <= COLS,
            seen <= col,
            seen <= n,
            seen == open_columns_before(board@, col as int),
        decreases COLS - col,
    {
        match board.get_lowest_empty_row(&col) {
            Some(row) => {
                if seen == n {
                    return Some((col, row));
                }
                seen += 1;
            },
            None => {},
        }
        col += 1;
    }
    None
}

} // verus!
