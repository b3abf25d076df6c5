//! Evaluation of a move: did the coin just placed complete four in a row,
//! is the board full, or does the game go on?

use vstd::arithmetic::power2::{lemma2_to64, pow2};
use vstd::prelude::*;

use crate::board::{cell_values, Board, CellValue};
use crate::grid::{
    column_settled, drop_coin, empty_grid, falling_diagonal, lemma_drop_keeps_settled,
    lemma_lowest_empty, lowest_empty, rising_diagonal, row_of, settled, well_formed, Grid,
};
use crate::strategy::has_open_column;
use crate::{COLS, ROWS};

verus! {

/// The result of evaluating a move.
#[derive(PartialEq, Eq, Structural, Clone, Copy, Debug)]
pub enum Winner {
    HUMAN,
    AI,
    DRAFT,
    NOBODY,
}

/// The line as a number: the cell at index `i` of a line of `n` cells
/// contributes `2^(n - i)` where it holds `player`, and nothing otherwise.
/// The first cell has the greatest weight, the last cell the weight 2, so the
/// number is even.
pub open spec fn line_bits(line: Seq<CellValue>, player: CellValue) -> nat
    decreases line.len(),
{
    if line.len() == 0 {
        0
    } else {
        let weight = if line[0] == player {
            pow2(line.len())
        } else {
            0
        };
        weight + line_bits(line.drop_first(), player)
    }
}

/// Bit `k` of `bits` is set; bit 0 is the lowest.
pub open spec fn bit_set(bits: u8, k: u8) -> bool {
    bits & (1u8 << k) != 0
}

/// The four bits `k`, `k + 1`, `k + 2` and `k + 3` of `bits` are set.
pub open spec fn four_bits_from(bits: u8, k: u8) -> bool {
    &&& bit_set(bits, k)
    &&& bit_set(bits, (k + 1) as u8)
    &&& bit_set(bits, (k + 2) as u8)
    &&& bit_set(bits, (k + 3) as u8)
}

/// Somewhere in the eight bits of `bits`, four neighbouring bits are set.
pub open spec fn has_four_neighbouring_bits(bits: u8) -> bool {
    ||| four_bits_from(bits, 0)
    ||| four_bits_from(bits, 1)
    ||| four_bits_from(bits, 2)
    ||| four_bits_from(bits, 3)
    ||| four_bits_from(bits, 4)
}

/// Four cells in a row hold `player`, the first of them at index `start`.
pub open spec fn run_of_four_at(line: Seq<CellValue>, player: CellValue, start: int) -> bool {
    &&& 0 <= start
    &&& start + 4 <= line.len()
    &&& line[start] == player
    &&& line[start + 1] == player
    &&& line[start + 2] == player
    &&& line[start + 3] == player
}

/// Somewhere in `line`, four cells in a row hold `player`.
pub open spec fn four_in_a_row(line: Seq<CellValue>, player: CellValue) -> bool {
    exists|start: int| run_of_four_at(line, player, start)
}

/// One of the four lines through (`col`, `row`) holds four coins in a row of
/// the kind that lies at (`col`, `row`): the column, the row, or one of the
/// two diagonals. After a move in a game that was still open, such a row of
/// four holds the coin just placed.
pub open spec fn four_through(grid: Grid, col: int, row: int) -> bool {
    let player = grid[col][row];
    ||| four_in_a_row(grid[col], player)
    ||| four_in_a_row(row_of(grid, row), player)
    ||| four_in_a_row(rising_diagonal(grid, col, row), player)
    ||| four_in_a_row(falling_diagonal(grid, col, row), player)
}

/// A cell of the top row is empty, so a coin can still be dropped.
pub open spec fn top_row_has_room(grid: Grid) -> bool {
    exists|col: int| 0 <= col < COLS && #[trigger] grid[col][ROWS - 1] == CellValue::EMPTY
}

/// The player whose coin is `cell_value`: the human for `HUMAN`, the computer
/// otherwise.
pub open spec fn owner_of(cell_value: CellValue) -> Winner {
    if cell_value == CellValue::HUMAN {
        Winner::HUMAN
    } else {
        Winner::AI
    }
}

/// The state of the game after a coin came to lie at (`col`, `row`): its
/// owner wins where a line through it holds four in a row; otherwise the
/// game goes on while the top row has room, and is drawn once the top row is
/// full.
pub open spec fn winner_after(grid: Grid, col: int, row: int) -> Winner {
    if four_through(grid, col, row) {
        owner_of(grid[col][row])
    } else if top_row_has_room(grid) {
        Winner::NOBODY
    } else {
        Winner::DRAFT
    }
}

/// The number of a line is less than twice the weight of its first cell.
pub proof fn lemma_line_bits_bound(line: Seq<CellValue>, player: CellValue)
    ensures
        line_bits(line, player) + 2 <= pow2(line.len() + 1),
    decreases line.len(),
{
    lemma2_to64();
    if line.len() > 0 {
        lemma_line_bits_bound(line.drop_first(), player);
        vstd::arithmetic::power2::lemma_pow2_unfold(line.len() + 1);
    }
}

/// Two shifted left by `shift` places is `2^(shift + 1)`, as long as the
/// result fits in eight bits.
proof fn lemma_two_shifted(shift: usize)
    requires
        shift < 7,
    ensures
        (2u8 << shift) == pow2((shift + 1) as nat),
{
    lemma2_to64();
    assert((2u8 << shift) == if shift == 0 {
        2u8
    } else if shift == 1 {
        4u8
    } else if shift == 2 {
        8u8
    } else if shift == 3 {
        16u8
    } else if shift == 4 {
        32u8
    } else if shift == 5 {
        64u8
    } else {
        128u8
    }) by (bit_vector)
        requires
            shift < 7,
    ;
}

/// One shifted left by `shift` places is `2^shift`, for each of the eight
/// bits.
proof fn lemma_one_shifted(shift: u8)
    requires
        shift < 8,
    ensures
        (1u8 << shift) == pow2(shift as nat),
{
    lemma2_to64();
    assert((1u8 << shift) == if shift == 0 {
        1u8
    } else if shift == 1 {
        2u8
    } else if shift == 2 {
        4u8
    } else if shift == 3 {
        8u8
    } else if shift == 4 {
        16u8
    } else if shift == 5 {
        32u8
    } else if shift == 6 {
        64u8
    } else {
        128u8
    }) by (bit_vector)
        requires
            shift < 8,
    ;
}

/// The bits of the number of a line mirror the line: bit `k` is set exactly
/// where the `k`-th cell from the end of the line holds `player`. Bit 0 is
/// never set.
pub proof fn lemma_line_bits_bit(line: Seq<CellValue>, player: CellValue, k: u8)
    requires
        line.len() <= 7,
        k < 8,
    ensures
        line_bits(line, player) <= 254,
        bit_set(line_bits(line, player) as u8, k) == (1 <= k <= line.len() && line[line.len() - k]
            == player),
    decreases line.len(),
{
    lemma2_to64();
    lemma_line_bits_bound(line, player);
    if line.len() == 0 {
        assert(!bit_set(0u8, k)) by (bit_vector);
    } else {
        let rest = line.drop_first();
        let n = line.len() as u8;
        lemma_line_bits_bit(rest, player, k);
        lemma_line_bits_bound(rest, player);
        let low = line_bits(rest, player) as u8;
        if line[0] == player {
            lemma_one_shifted(n);
            let all = (low + (1u8 << n)) as u8;
            assert(bit_set(all, k) == (bit_set(low, k) || k == n)) by (bit_vector)
                requires
                    1 <= n < 8,
                    k < 8,
                    low < (1u8 << n),
                    all == low + (1u8 << n),
            ;
        }
    }
}

/// The encoding decides four in a row: in a line of at most seven cells,
/// four neighbouring bits of its number are set exactly where four cells in a
/// row hold `player`.
pub proof fn lemma_bits_show_four_in_a_row(line: Seq<CellValue>, player: CellValue)
    requires
        line.len() <= 7,
    ensures
        line_bits(line, player) <= 254,
        has_four_neighbouring_bits(line_bits(line, player) as u8) == four_in_a_row(line, player),
{
    let bits = line_bits(line, player) as u8;
    let n = line.len() as int;
    lemma_line_bits_bit(line, player, 0);
    lemma_line_bits_bit(line, player, 1);
    lemma_line_bits_bit(line, player, 2);
    lemma_line_bits_bit(line, player, 3);
    lemma_line_bits_bit(line, player, 4);
    lemma_line_bits_bit(line, player, 5);
    lemma_line_bits_bit(line, player, 6);
    lemma_line_bits_bit(line, player, 7);
    if has_four_neighbouring_bits(bits) {
        let k: u8 = if four_bits_from(bits, 1) {
            1
        } else if four_bits_from(bits, 2) {
            2
        } else if four_bits_from(bits, 3) {
            3
        } else {
            4
        };
        assert(four_bits_from(bits, k));
        assert(run_of_four_at(line, player, n - k - 3));
    }
    if four_in_a_row(line, player) {
        let start = choose|start: int| run_of_four_at(line, player, start);
        assert(four_bits_from(bits, (n - 3 - start) as u8));
    }
}

/// Encodes a line of at most seven cells as a number: see `line_bits`.
pub fn value_vector_to_bits(value_vector: &Vec<&CellValue>, mask_value: &CellValue) -> (bits: u8)
    requires
        value_vector@.len() <= 7,
    ensures
        bits == line_bits(cell_values(value_vector@), *mask_value),
{
    let mut bits: u8 = 0;
    let mut idx: usize = 0;
    let vector_len: usize = value_vector.len();
    let ghost line = cell_values(value_vector@);
    proof {
        lemma_line_bits_bound(line, *mask_value);
        lemma2_to64();
        assert(line.skip(0) =~= line);
    }
    while idx < vector_len
        invariant
            vector_len == value_vector@.len(),
            vector_len <= 7,
            idx <= vector_len,
            line == cell_values(value_vector@),
            line_bits(line, *mask_value) <= 254,
            bits + line_bits(line.skip(idx as int), *mask_value) == line_bits(line, *mask_value),
        decreases vector_len - idx,
    {
        proof {
            assert(line.skip(idx as int).drop_first() =~= line.skip(idx as int + 1));
            lemma_two_shifted((vector_len - idx - 1) as usize);
        }
        if *value_vector[idx] == *mask_value {
            bits += 2u8 << (vector_len - idx - 1);
        }
        idx += 1;
    }
    bits
}

/// Tells whether four neighbouring bits of `bits` are set.
pub fn has_winning_bits(bits: &u8) -> (wins: bool)
    ensures
        wins == has_four_neighbouring_bits(*bits),
{
    let bits: u8 = *bits;
    assert((bits & 15 == 15) == four_bits_from(bits, 0)) by (bit_vector);
    assert((bits & 30 == 30) == four_bits_from(bits, 1)) by (bit_vector);
    assert((bits & 60 == 60) == four_bits_from(bits, 2)) by (bit_vector);
    assert((bits & 120 == 120) == four_bits_from(bits, 3)) by (bit_vector);
    assert((bits & 240 == 240) == four_bits_from(bits, 4)) by (bit_vector);
    return bits & 15 == 15 || bits & 30 == 30 || bits & 60 == 60 || bits & 120 == 120 || bits & 240
        == 240;
}

/// The player who wins with a line of `cell_value`.
pub fn cell_value_to_winner(cell_value: &CellValue) -> (winner: Winner)
    ensures
        winner == owner_of(*cell_value),
{
    if *cell_value == CellValue::HUMAN {
        return Winner::HUMAN;
    } else {
        return Winner::AI;
    }
}

/// Where no coin floats, a full top row means a full board: a draw is
/// declared only when no cell is left.
pub proof fn lemma_full_top_row_is_full_board(grid: Grid)
    requires
        well_formed(grid),
        settled(grid),
        !top_row_has_room(grid),
    ensures
        forall|col: int, row: int|
            0 <= col < COLS && 0 <= row < ROWS ==> #[trigger] grid[col][row] != CellValue::EMPTY,
{
    assert forall|col: int, row: int|
        0 <= col < COLS && 0 <= row < ROWS implies #[trigger] grid[col][row]
        != CellValue::EMPTY by {
        assert(grid[col][ROWS - 1] != CellValue::EMPTY);
        assert(column_settled(grid[col]));
    }
}

/// On a full board a coin with no four in a row on the lines through it
/// ends the game in a draw.
pub proof fn lemma_full_board_without_four_is_drawn(grid: Grid, col: int, row: int)
    requires
        well_formed(grid),
        0 <= col < COLS,
        0 <= row < ROWS,
        forall|c: int, r: int| 0 <= c < COLS && 0 <= r < ROWS ==> grid[c][r] != CellValue::EMPTY,
        !four_through(grid, col, row),
    ensures
        winner_after(grid, col, row) == Winner::DRAFT,
{
}

/// Tells whether four cells in a row of `line` hold `player`.
fn line_wins(line: &Vec<&CellValue>, player: &CellValue) -> (wins: bool)
    requires
        line@.len() <= 7,
    ensures
        wins == four_in_a_row(cell_values(line@), *player),
{
    let bits = value_vector_to_bits(line, player);
    proof {
        lemma_bits_show_four_in_a_row(cell_values(line@), *player);
    }
    has_winning_bits(&bits)
}

/// Evaluates the move that put a coin at (`col`, `row`).
pub fn get_winner(board: &Board, col: &u8, row: &u8) -> (winner: Winner)
    requires
        board.wf(),
        *col < COLS,
        *row < ROWS,
        board@[*col as int][*row as int] != CellValue::EMPTY,
    ensures
        winner == winner_after(board@, *col as int, *row as int),
{
    let cell_value = board.get(col, row);

    if line_wins(&board.get_column(col), cell_value) {
        return cell_value_to_winner(cell_value);
    }
    if line_wins(&board.get_row(row), cell_value) {
        return cell_value_to_winner(cell_value);
    }
    let rising = board.get_rising_diagonal_as_value_vector(col, row);
    if line_wins(&rising, cell_value) {
        return cell_value_to_winner(cell_value);
    }
    let falling = board.get_falling_diagonal_as_value_vector(col, row);
    if line_wins(&falling, cell_value) {
        return cell_value_to_winner(cell_value);
    }
    // The game goes on as long as the top row has an empty cell.

    let top_row_idx: u8 = ROWS - 1;
    let top_row = board.get_row(&top_row_idx);
    let mut col_idx: usize = 0;
    while col_idx < top_row.len()
        invariant
            !four_through(board@, *col as int, *row as int),
            top_row@.len() == COLS,
            col_idx <= top_row@.len(),
            cell_values(top_row@) == row_of(board@, ROWS - 1),
            forall|c: int| 0 <= c < col_idx ==> board@[c][ROWS - 1] != CellValue::EMPTY,
        decreases top_row@.len() - col_idx,
    {
        assert(row_of(board@, ROWS - 1)[col_idx as int] == board@[col_idx as int][ROWS - 1]);
        if *top_row[col_idx] == CellValue::EMPTY {
            return Winner::NOBODY;
        }
        col_idx += 1;
    }
    return Winner::DRAFT;
}

/// A game from its first move to its end: the board, and whether the game
/// is still open or how it ended.
pub struct Game {
    board: Board,
    winner: Winner,
}

impl View for Game {
    type V = (Grid, Winner);

    closed spec fn view(&self) -> (Grid, Winner) {
        (self.board@, self.winner)
    }
}

/// The game takes a coin in column `col`: it is still open, and the column
/// has room.
pub open spec fn accepts(state: (Grid, Winner), col: int) -> bool {
    state.1 == Winner::NOBODY && lowest_empty(state.0[col]) is Some
}

/// The game after a player asked to drop `coin` into column `col`. An open
/// game with room in that column takes the coin and is evaluated at the cell
/// where the coin came to lie. A game that is over, or a full column, takes
/// no coin: the game stays as it is.
pub open spec fn after_move(state: (Grid, Winner), col: int, coin: CellValue) -> (Grid, Winner) {
    if accepts(state, col) {
        let grid = drop_coin(state.0, col, coin);
        (grid, winner_after(grid, col, lowest_empty(state.0[col]).unwrap()))
    } else {
        state
    }
}

/// What every game is like: no coin floats on its board, and while the game
/// is open the top row has room.
pub open spec fn is_playable(state: (Grid, Winner)) -> bool {
    &&& well_formed(state.0)
    &&& settled(state.0)
    &&& state.1 == Winner::NOBODY ==> top_row_has_room(state.0)
}

/// A move keeps a game as every game is. Once the game is over, no move
/// changes it any more.
pub proof fn lemma_after_move(state: (Grid, Winner), col: int, coin: CellValue)
    requires
        is_playable(state),
        0 <= col < COLS,
    ensures
        is_playable(after_move(state, col, coin)),
        state.1 != Winner::NOBODY ==> after_move(state, col, coin) == state,
{
    lemma_drop_keeps_settled(state.0, col, coin);
}

/// While the top row has room, some column has room: in an open game there
/// is always a move to make.
pub proof fn lemma_open_game_has_room(grid: Grid)
    requires
        well_formed(grid),
        top_row_has_room(grid),
    ensures
        has_open_column(grid),
{
    let col = choose|col: int|
        0 <= col < COLS && #[trigger] grid[col][ROWS - 1] == CellValue::EMPTY;
    lemma_lowest_empty(grid[col]);
}

impl Game {
    /// The game holds a valid board and is as every game is.
    pub closed spec fn wf(&self) -> bool {
        self.board.wf() && is_playable(self@)
    }

    /// A new game: the board is empty and the game is open.
    pub fn new() -> (game: Game)
        ensures
            game.wf(),
            game@ == (empty_grid(), Winner::NOBODY),
    {
        let game = Game { board: Board::new(), winner: Winner::NOBODY };
        assert(game.board@[0][ROWS - 1] == CellValue::EMPTY);
        game
    }

    /// The board of the game.
    pub fn board(&self) -> (board: &Board)
        requires
            self.wf(),
        ensures
            board.wf(),
            board@ == self@.0,
            is_playable(self@),
    {
        &self.board
    }

    /// The state of the game: `NOBODY` while it is open, else how it ended.
    pub fn winner(&self) -> (winner: Winner)
        ensures
            winner == self@.1,
    {
        self.winner
    }

    /// Asks to drop `coin` into column `col`. An open game with room in that
    /// column takes the coin, is evaluated, and reports the cell where the
    /// coin came to lie. A game that is over, or a full column, takes no
    /// coin: nothing changes and nothing is reported.
    pub fn play(&mut self, col: u8, coin: CellValue) -> (placed: Option<(u8, u8)>)
        requires
            old(self).wf(),
            col < COLS,
            coin != CellValue::EMPTY,
        ensures
            final(self).wf(),
            final(self)@ == after_move(old(self)@, col as int, coin),
            placed == if accepts(old(self)@, col as int) {
                Some((col, lowest_empty(old(self)@.0[col as int]).unwrap() as u8))
            } else {
                None
            },
            placed matches Some(place) ==> place.1 < ROWS,
    {
        if self.winner != Winner::NOBODY {
            return None;
        }
        proof {
            lemma_after_move(self@, col as int, coin);
        }
        match self.board.get_lowest_empty_row(&col) {
            Some(row) => {
                self.board.add_coin(&col, coin);
                self.winner = get_winner(&self.board, &col, &row);
                Some((col, row))
            },
            None => None,
        }
    }
}

/// What to announce once the game is over: who won, or that nobody can move
/// any more. While the game goes on there is nothing to announce.
pub fn game_over_message(winner: &Winner) -> (message: Option<&'static str>)
    ensures
        match *winner {
            Winner::NOBODY => message is None,
            Winner::HUMAN => message is Some && message.unwrap()@ == "Human wins!"@,
            Winner::AI => message is Some && message.unwrap()@ == "Computer wins!"@,
            Winner::DRAFT => message is Some && message.unwrap()@
                == "Draft, no further moves possible!"@,
        },
{
    if *winner == Winner::NOBODY {
        return None;
    }
    if *winner == Winner::HUMAN {
        Some("Human wins!")
    } else if *winner == Winner::AI {
        Some("Computer wins!")
    } else {
        Some("Draft, no further moves possible!")
    }
}

} // verus!
