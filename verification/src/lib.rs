//! Connect Four on a fixed board of six rows and seven columns: the board
//! with its column-drop rule, and the evaluation of a move just made.

use vstd::prelude::*;

pub mod board;
pub mod game;
pub mod grid;
pub mod strategy;
pub mod ui;

verus! {

/// Number of rows of the board. Row 0 is the bottom row.
pub const ROWS: u8 = 6;

/// Number of columns of the board. Column 0 is the leftmost column.
pub const COLS: u8 = 7;

} // verus!
