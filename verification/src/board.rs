//! The board: a grid of cells that fills column by column, from the bottom.

use vstd::prelude::*;
use vstd::string::StringExecFns;

use crate::grid::{
    drop_coin, empty_grid, falling_diagonal, is_lowest_empty, lemma_drop_keeps_settled,
    lemma_empty_grid, lemma_lowest_empty, lowest_empty, rising_diagonal, row_of, settled,
    with_cell, Grid,
};
use crate::{COLS, ROWS};

verus! {

/// The state of one cell of the board.
#[derive(PartialEq, Eq, Structural, Clone, Copy, Debug)]
pub enum CellValue {
    EMPTY,
    HUMAN,
    AI,
}

/// The character that shows a cell on screen: a blank for an empty cell,
/// `H` for the human's coin and `C` for the computer's.
pub open spec fn symbol_of(cell: CellValue) -> char {
    match cell {
        CellValue::EMPTY => ' ',
        CellValue::AI => 'C',
        CellValue::HUMAN => 'H',
    }
}

impl CellValue {
    /// The character that shows this cell on screen.
    pub fn coin_value(&self) -> (symbol: char)
        ensures
            symbol == symbol_of(*self),
    {
        match *self {
            CellValue::EMPTY => ' ',
            CellValue::AI => 'C',
            CellValue::HUMAN => 'H',
        }
    }
}

/// The cells that a list of references points to, in the same order.
pub open spec fn cell_values(line: Seq<&CellValue>) -> Seq<CellValue> {
    Seq::new(line.len(), |i: int| *line[i])
}

/// The lists of cells that a list of vectors holds, in the same order.
pub open spec fn row_views(rows: Seq<Vec<CellValue>>) -> Seq<Seq<CellValue>> {
    Seq::new(rows.len(), |i: int| rows[i]@)
}

/// The grid that a picture of the board describes. The picture lists the
/// rows from the top row down to the bottom row, each row from left to
/// right; its last row is the bottom row of the board. Cells that the
/// picture leaves out, above its first row or to the right of a short row,
/// are empty.
pub open spec fn grid_from_rows(rows: Seq<Seq<CellValue>>) -> Grid {
    Seq::new(
        COLS as nat,
        |col: int|
            Seq::new(
                ROWS as nat,
                |row: int|
                    if row < rows.len() && col < rows[rows.len() - 1 - row].len() {
                        rows[rows.len() - 1 - row][col]
                    } else {
                        CellValue::EMPTY
                    },
            ),
    )
}

/// The line of text that shows row `row`: the number of the row, counted
/// from 1, then a bar, then the symbols of the row's cells from left to
/// right with a blank between neighbours.
pub open spec fn row_picture(grid: Grid, row: int) -> Seq<char> {
    seq![('1' as int + row) as char, ' ', '|', ' '] + Seq::new(
        (2 * COLS - 1) as nat,
        |i: int|
            if i % 2 == 0 {
                symbol_of(grid[i / 2][row])
            } else {
                ' '
            },
    )
}

/// The lines of text that show the grid: an empty line, the rows from the
/// top row down, a rule, and the numbers of the columns.
pub open spec fn picture(grid: Grid) -> Seq<Seq<char>> {
    seq![Seq::<char>::empty()] + Seq::new(
        ROWS as nat,
        |i: int| row_picture(grid, ROWS - 1 - i),
    ) + seq!["   --------------"@, "    1 2 3 4 5 6 7 "@]
}

/// The playing board. Its cells are stored row by row, bottom row first, each
/// row from left to right.
pub struct Board {
    board: Vec<CellValue>,
}

impl View for Board {
    type V = Grid;

    open spec fn view(&self) -> Grid {
        Seq::new(COLS as nat, |col: int| Seq::new(ROWS as nat, |row: int| self.cell(col, row)))
    }
}

impl Board {
    /// The board stores exactly one value for each of its `ROWS * COLS`
    /// cells. Every board that this module hands out is valid, and every
    /// operation keeps it so.
    pub closed spec fn wf(&self) -> bool {
        self.board@.len() == ROWS * COLS
    }

    /// The cell in column `col` and row `row`; meaningful for coordinates on
    /// the board.
    pub closed spec fn cell(&self, col: int, row: int) -> CellValue {
        self.board@[row * COLS + col]
    }

    /// A board with every cell empty.
    pub fn new() -> (board: Board)
        ensures
            board.wf(),
            board@ == empty_grid(),
            settled(board@),
            forall|col: int, row: int|
                0 <= col < COLS && 0 <= row < ROWS ==> #[trigger] board@[col][row]
                    == CellValue::EMPTY,
            forall|col: int| 0 <= col < COLS ==> lowest_empty(#[trigger] board@[col]) == Some(0int),
    {
        let mut cells: Vec<CellValue> = Vec::new();
        let mut filled: u8 = 0;
        while filled < ROWS * COLS
            invariant
                filled <= ROWS * COLS,
                cells@.len() == filled,
                forall|i: int| 0 <= i < filled ==> cells@[i] == CellValue::EMPTY,
            decreases ROWS * COLS - filled,
        {
            cells.push(CellValue::EMPTY);
            filled += 1;
        }
        let board = Board { board: cells };
        proof {
            assert(board@ =~~= empty_grid());
            lemma_empty_grid();
        }
        board
    }

    /// The board that a picture shows: `rows` lists the rows from top to
    /// bottom, each from left to right.
    pub fn from(rows: Vec<Vec<CellValue>>) -> (board: Board)
        requires
            rows@.len() <= ROWS,
            forall|i: int| 0 <= i < rows@.len() ==> (#[trigger] rows@[i])@.len() <= COLS,
        ensures
            board.wf(),
            board@ == grid_from_rows(row_views(rows@)),
    {
        let mut board = Board::new();
        let ghost picture = row_views(rows@);
        let ghost target = grid_from_rows(picture);
        let height: usize = rows.len();
        let mut row_idx: u8 = 0;
        while (row_idx as usize) < height
            invariant
                board.wf(),
                height == rows@.len(),
                height <= ROWS,
                row_idx <= height,
                picture == row_views(rows@),
                target == grid_from_rows(picture),
                forall|i: int| 0 <= i < rows@.len() ==> (#[trigger] rows@[i])@.len() <= COLS,
                forall|c: int, r: int|
                    0 <= c < COLS && 0 <= r < ROWS ==> board@[c][r] == if r < row_idx {
                        target[c][r]
                    } else {
                        CellValue::EMPTY
                    },
            decreases height - row_idx,
        {
            let row: &Vec<CellValue> = &rows[height - 1 - row_idx as usize];
            let width: usize = row.len();
            let mut col_idx: u8 = 0;
            while (col_idx as usize) < width
                invariant
                    board.wf(),
                    height == rows@.len(),
                    height <= ROWS,
                    row_idx < height,
                    picture.len() == height,
                    row@ == picture[height - 1 - row_idx],
                    width == row@.len(),
                    width <= COLS,
                    col_idx <= width,
                    target == grid_from_rows(picture),
                    forall|c: int, r: int|
                        0 <= c < COLS && 0 <= r < ROWS ==> board@[c][r] == if r < row_idx || (r
                            == row_idx && c < col_idx) {
                            target[c][r]
                        } else {
                            CellValue::EMPTY
                        },
                decreases width - col_idx,
            {
                let cell_value: CellValue = row[col_idx as usize];
                if cell_value != CellValue::EMPTY {
                    board.set(&col_idx, &row_idx, cell_value);
                }
                col_idx += 1;
            }
            row_idx += 1;
        }
        assert(board@ =~~= target);
        board
    }

    /// The number of cells of the board, which never changes.
    pub fn cell_count(&self) -> (count: usize)
        requires
            self.wf(),
        ensures
            count == ROWS * COLS,
    {
        self.board.len()
    }

    /// The cell in column `col` and row `row`.
    pub fn get(&self, col: &u8, row: &u8) -> (value: &CellValue)
        requires
            self.wf(),
            *col < COLS,
            *row < ROWS,
        ensures
            *value == self@[*col as int][*row as int],
    {
        &self.board[(*row * COLS + *col) as usize]
    }

    /// Overwrites the cell in column `col` and row `row`.
    fn set(&mut self, col: &u8, row: &u8, value: CellValue)
        requires
            old(self).wf(),
            *col < COLS,
            *row < ROWS,
        ensures
            final(self).wf(),
            final(self)@ == with_cell(old(self)@, *col as int, *row as int, value),
    {
        let index: usize = (*row * COLS + *col) as usize;
        self.board.set(index, value);
        assert(self@ =~~= with_cell(old(self)@, *col as int, *row as int, value));
    }

    /// The cells of column `col`, from bottom to top.
    pub fn get_column(&self, col: &u8) -> (column: Vec<&CellValue>)
        requires
            self.wf(),
            *col < COLS,
        ensures
            column@.len() == ROWS,
            cell_values(column@) == self@[*col as int],
    {
        let mut column: Vec<&CellValue> = Vec::new();
        let mut row: u8 = 0;
        while row < ROWS
            invariant
                self.wf(),
                *col < COLS,
                row <= ROWS,
                column@.len() == row,
                forall|i: int| 0 <= i < row ==> *column@[i] == self@[*col as int][i],
            decreases ROWS - row,
        {
            column.push(self.get(col, &row));
            row += 1;
        }
        column
    }

    /// The cells of row `row`, from left to right.
    pub fn get_row(&self, row: &u8) -> (cells: Vec<&CellValue>)
        requires
            self.wf(),
            *row < ROWS,
        ensures
            cells@.len() == COLS,
            cell_values(cells@) == row_of(self@, *row as int),
    {
        let mut cells: Vec<&CellValue> = Vec::new();
        let mut col: u8 = 0;
        while col < COLS
            invariant
                self.wf(),
                *row < ROWS,
                col <= COLS,
                cells@.len() == col,
                forall|i: int| 0 <= i < col ==> *cells@[i] == self@[i][*row as int],
            decreases COLS - col,
        {
            cells.push(self.get(&col, row));
            col += 1;
        }
        cells
    }

    /// The cells of the rising diagonal through (`col`, `row`), from its
    /// lower left end to its upper right end.
    pub fn get_rising_diagonal_as_value_vector(&self, col: &u8, row: &u8) -> (cells: Vec<
        &CellValue,
    >)
        requires
            self.wf(),
            *col < COLS,
            *row < ROWS,
        ensures
            1 <= cells@.len() <= ROWS,
            cell_values(cells@) == rising_diagonal(self@, *col as int, *row as int),
    {
        let mut cells: Vec<&CellValue> = Vec::new();
        let start_diff: u8 = if *col <= *row {
            *col
        } else {
            *row
        };
        let first_col: u8 = *col - start_diff;
        let first_row: u8 = *row - start_diff;
        let mut current_col: u8 = first_col;
        let mut current_row: u8 = first_row;
        while current_col < COLS && current_row < ROWS
            invariant
                self.wf(),
                first_col <= current_col <= COLS,
                first_row <= current_row <= ROWS,
                current_col - first_col == current_row - first_row,
                cells@.len() == current_col - first_col,
                forall|i: int|
                    0 <= i < cells@.len() ==> *cells@[i] == self@[first_col + i][first_row + i],
            decreases COLS - current_col,
        {
            cells.push(self.get(&current_col, &current_row));
            current_col += 1;
            current_row += 1;
        }
        cells
    }

    /// The cells of the falling diagonal through (`col`, `row`), from its
    /// upper left end to its lower right end.
    pub fn get_falling_diagonal_as_value_vector(&self, col: &u8, row: &u8) -> (cells: Vec<
        &CellValue,
    >)
        requires
            self.wf(),
            *col < COLS,
            *row < ROWS,
        ensures
            1 <= cells@.len() <= ROWS,
            cell_values(cells@) == falling_diagonal(self@, *col as int, *row as int),
    {
        let mut cells: Vec<&CellValue> = Vec::new();
        let row_diff: u8 = ROWS - *row - 1;
        let start_diff: u8 = if *col <= row_diff {
            *col
        } else {
            row_diff
        };
        let first_col: u8 = *col - start_diff;
        let first_row: u8 = *row + start_diff;
        let mut current_col: u8 = first_col;
        let mut current_row: u8 = first_row;
        loop
            invariant_except_break
                cells@.len() == current_col - first_col,
            invariant
                self.wf(),
                first_col <= current_col < COLS,
                current_row <= first_row < ROWS,
                current_col - first_col == first_row - current_row,
                forall|i: int|
                    0 <= i < cells@.len() ==> *cells@[i] == self@[first_col + i][first_row - i],
            ensures
                cells@.len() == current_col - first_col + 1,
                current_col == COLS - 1 || current_row == 0,
            decreases COLS - current_col,
        {
            cells.push(self.get(&current_col, &current_row));
            if current_col == COLS - 1 || current_row == 0 {
                break ;
            }
            current_col += 1;
            current_row -= 1;
        }
        cells
    }

    /// The index of the first empty cell in a list of cells, or `None` where
    /// no cell of the list is empty.
    pub fn find_lowest_empty_row(column: Vec<&CellValue>) -> (found: Option<u8>)
        requires
            column@.len() <= u8::MAX,
        ensures
            match found {
                Some(row) => lowest_empty(cell_values(column@)) == Some(row as int),
                None => lowest_empty(cell_values(column@)) is None,
            },
    {
        let mut row_idx: u8 = 0;
        while (row_idx as usize) < column.len()
            invariant
                column@.len() <= u8::MAX,
                row_idx <= column@.len(),
                forall|below: int| 0 <= below < row_idx ==> *column@[below] != CellValue::EMPTY,
            decreases column@.len() - row_idx,
        {
            if *column[row_idx as usize] == CellValue::EMPTY {
                proof {
                    lemma_lowest_empty(cell_values(column@));
                    assert(is_lowest_empty(cell_values(column@), row_idx as int));
                }
                return Some(row_idx);
            }
            row_idx += 1;
        }
        proof {
            lemma_lowest_empty(cell_values(column@));
        }
        None
    }

    /// The lowest empty row of column `col`, or `None` where the column is
    /// full.
    pub fn get_lowest_empty_row(&self, col: &u8) -> (found: Option<u8>)
        requires
            self.wf(),
            *col < COLS,
        ensures
            match found {
                Some(row) => row < ROWS && lowest_empty(self@[*col as int]) == Some(row as int),
                None => lowest_empty(self@[*col as int]) is None,
            },
    {
        let found = Board::find_lowest_empty_row(self.get_column(col));
        proof {
            lemma_lowest_empty(self@[*col as int]);
        }
        found
    }

    /// Drops `coin` into column `col`: it comes to lie in the lowest empty
    /// cell of that column, and no other cell changes.
    pub fn add_coin(&mut self, col: &u8, coin: CellValue)
        requires
            old(self).wf(),
            *col < COLS,
            lowest_empty(old(self)@[*col as int]) is Some,
        ensures
            final(self).wf(),
            final(self)@ == drop_coin(old(self)@, *col as int, coin),
            settled(old(self)@) ==> settled(final(self)@),
    {
        let column = self.get_column(col);
        let found = Board::find_lowest_empty_row(column);
        proof {
            lemma_lowest_empty(self@[*col as int]);
            if settled(self@) {
                lemma_drop_keeps_settled(self@, *col as int, coin);
            }
        }
        match found {
            Some(row) => self.set(col, &row, coin),
            None => unreached(),
        }
    }

    /// The line of text that shows row `row` of the board.
    pub fn row_text(&self, row: &u8) -> (line: String)
        requires
            self.wf(),
            *row < ROWS,
        ensures
            line@ == row_picture(self@, *row as int),
    {
        proof {
            reveal_strlit("1 | ");
            reveal_strlit("2 | ");
            reveal_strlit("3 | ");
            reveal_strlit("4 | ");
            reveal_strlit("5 | ");
            reveal_strlit("6 | ");
            reveal_strlit(" ");
            reveal_strlit("C");
            reveal_strlit("H");
        }
        let label: &str = if *row == 0 {
            "1 | "
        } else if *row == 1 {
            "2 | "
        } else if *row == 2 {
            "3 | "
        } else if *row == 3 {
            "4 | "
        } else if *row == 4 {
            "5 | "
        } else {
            "6 | "
        };
        let mut line = String::from_str(label);
        let ghost expected = row_picture(self@, *row as int);
        let mut col: u8 = 0;
        while col < COLS
            invariant
                self.wf(),
                *row < ROWS,
                col <= COLS,
                expected == row_picture(self@, *row as int),
                " "@ == seq![' '],
                "C"@ == seq!['C'],
                "H"@ == seq!['H'],
                line@ == expected.take(
                    if col == COLS {
                        4 + 2 * COLS - 1
                    } else {
                        4 + 2 * col
                    },
                ),
            decreases COLS - col,
        {
            let symbol: &str = match *self.get(&col, row) {
                CellValue::EMPTY => " ",
                CellValue::AI => "C",
                CellValue::HUMAN => "H",
            };
            line.append(symbol);
            assert(line@ =~= expected.take(4 + 2 * col + 1));
            if col != COLS - 1 {
                line.append(" ");
                assert(line@ =~= expected.take(4 + 2 * col + 2));
            }
            col += 1;
        }
        line
    }

    /// The lines of text that show the board, first line first.
    pub fn render(&self) -> (lines: Vec<String>)
        requires
            self.wf(),
        ensures
            lines@.len() == ROWS + 3,
            forall|i: int| 0 <= i < lines@.len() ==> (#[trigger] lines@[i])@ == picture(self@)[i],
    {
        let mut lines: Vec<String> = Vec::new();
        lines.push(String::new());
        let mut shown: u8 = 0;
        while shown < ROWS
            invariant
                self.wf(),
                shown <= ROWS,
                lines@.len() == shown + 1,
                forall|i: int|
                    0 <= i < lines@.len() ==> (#[trigger] lines@[i])@ == picture(self@)[i],
            decreases ROWS - shown,
        {
            let row: u8 = ROWS - 1 - shown;
            lines.push(self.row_text(&row));
            shown += 1;
        }
        lines.push(String::from_str("   --------------"));
        lines.push(String::from_str("    1 2 3 4 5 6 7 "));
        lines
    }
}

} // verus!
