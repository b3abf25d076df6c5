use connect_four::board::CellValue::{AI as C, EMPTY as E, HUMAN as H};
use connect_four::board::{Board, CellValue};
use connect_four::{COLS, ROWS};

fn staircase() -> Board {
    Board::from(vec![
        vec![E, E, E, E, E, E, H],
        vec![E, E, E, E, E, C, C],
        vec![E, E, E, E, H, H, H],
        vec![E, E, E, C, C, C, C],
        vec![E, E, H, H, H, H, H],
        vec![E, C, C, C, C, C, C],
    ])
}

fn values(line: Vec<&CellValue>) -> Vec<CellValue> {
    line.into_iter().copied().collect()
}

#[test]
fn test_new() {
    let board = Board::new();
    assert_eq!(COLS * ROWS, board.cell_count() as u8);

    for col_idx in 0..COLS {
        let column = board.get_column(&col_idx);
        assert_eq!(ROWS, column.len() as u8);

        for row_idx in 0..ROWS {
            let cell_value = column[row_idx as usize];
            assert_eq!(CellValue::EMPTY, *cell_value);
        }
    }
}

#[test]
fn test_from() {
    let board = Board::from(vec![
        vec![E, E, E, E, E, E, H],
        vec![E, E, E, E, E, C, C],
        vec![E, E, E, E, H, H, H],
        vec![E, E, E, C, C, C, C],
        vec![E, E, H, H, H, H, H],
        vec![E, C, C, C, C, C, C],
    ]);

    assert_eq!(&E, board.get(&0, &0));
    assert_eq!(&E, board.get(&0, &5));
    assert_eq!(&C, board.get(&6, &0));
    assert_eq!(&H, board.get(&6, &5));
}

#[test]
fn test_find_lowest_empty_row() {
    let empty_board = Board::new();

    for col_idx in 0..COLS {
        assert_eq!(empty_board.get_lowest_empty_row(&col_idx).unwrap(), 0);
    }

    let board = Board::from(vec![
        vec![E, E, E, E, E, E, H],
        vec![E, E, E, E, E, C, C],
        vec![E, E, E, E, H, H, H],
        vec![E, E, E, C, C, C, C],
        vec![E, E, H, H, H, H, H],
        vec![E, C, C, C, C, C, C],
    ]);

    assert_eq!(0, board.get_lowest_empty_row(&0).unwrap());
    assert_eq!(1, board.get_lowest_empty_row(&1).unwrap());
    assert_eq!(2, board.get_lowest_empty_row(&2).unwrap());
    assert_eq!(3, board.get_lowest_empty_row(&3).unwrap());
    assert_eq!(4, board.get_lowest_empty_row(&4).unwrap());
    assert_eq!(5, board.get_lowest_empty_row(&5).unwrap());
    assert_eq!(None, board.get_lowest_empty_row(&6));
}

#[test]
fn coin_values_are_the_screen_symbols() {
    assert_eq!(' ', E.coin_value());
    assert_eq!('H', H.coin_value());
    assert_eq!('C', C.coin_value());
}

#[test]
fn new_board_is_empty_everywhere() {
    let board = Board::new();
    assert_eq!(42, board.cell_count());
    for col in 0..COLS {
        for row in 0..ROWS {
            assert_eq!(&E, board.get(&col, &row));
        }
        assert_eq!(Some(0), board.get_lowest_empty_row(&col));
    }
}

#[test]
fn from_reads_the_picture_top_row_first() {
    let board = staircase();
    for col in 0..COLS {
        for row in 0..ROWS {
            let expected = if row >= col {
                E
            } else if row % 2 == 0 {
                C
            } else {
                H
            };
            assert_eq!(&expected, board.get(&col, &row));
        }
    }
}

#[test]
fn from_fills_what_a_short_picture_leaves_out() {
    let board = Board::from(vec![vec![H], vec![C, H, C]]);
    assert_eq!(&C, board.get(&0, &0));
    assert_eq!(&H, board.get(&1, &0));
    assert_eq!(&C, board.get(&2, &0));
    assert_eq!(&E, board.get(&3, &0));
    assert_eq!(&H, board.get(&0, &1));
    assert_eq!(&E, board.get(&1, &1));
    assert_eq!(&E, board.get(&0, &2));
    assert_eq!(42, board.cell_count());

    let nothing = Board::from(vec![]);
    for col in 0..COLS {
        assert_eq!(Some(0), nothing.get_lowest_empty_row(&col));
    }
}

#[test]
fn add_coin_fills_the_lowest_empty_row() {
    let mut board = Board::new();
    board.add_coin(&3, H);
    assert_eq!(&H, board.get(&3, &0));
    assert_eq!(Some(1), board.get_lowest_empty_row(&3));
    board.add_coin(&3, C);
    assert_eq!(&H, board.get(&3, &0));
    assert_eq!(&C, board.get(&3, &1));
    assert_eq!(&E, board.get(&3, &2));
    assert_eq!(Some(2), board.get_lowest_empty_row(&3));
    for col in [0u8, 1, 2, 4, 5, 6] {
        assert_eq!(Some(0), board.get_lowest_empty_row(&col));
        for row in 0..ROWS {
            assert_eq!(&E, board.get(&col, &row));
        }
    }
    assert_eq!(42, board.cell_count());
}

#[test]
fn add_coin_fills_a_gap_below_a_floating_coin() {
    let mut board = Board::from(vec![vec![H, E], vec![E, E], vec![C, E]]);
    assert_eq!(Some(1), board.get_lowest_empty_row(&0));
    board.add_coin(&0, C);
    assert_eq!(vec![C, C, H, E, E, E], values(board.get_column(&0)));
    assert_eq!(Some(3), board.get_lowest_empty_row(&0));
}

#[test]
fn column_is_full_after_rows_drops() {
    for col in 0..COLS {
        let mut board = Board::new();
        for dropped in 0..ROWS {
            assert_eq!(Some(dropped), board.get_lowest_empty_row(&col));
            board.add_coin(&col, if dropped % 2 == 0 { H } else { C });
        }
        assert_eq!(None, board.get_lowest_empty_row(&col));
        assert_eq!(vec![H, C, H, C, H, C], values(board.get_column(&col)));
    }
}

#[test]
fn find_lowest_empty_row_scans_any_list() {
    assert_eq!(None, Board::find_lowest_empty_row(vec![]));
    assert_eq!(None, Board::find_lowest_empty_row(vec![&H, &C]));
    assert_eq!(Some(0), Board::find_lowest_empty_row(vec![&E, &C, &E]));
    assert_eq!(Some(2), Board::find_lowest_empty_row(vec![&H, &C, &E, &H, &E]));
}

#[test]
fn columns_and_rows_have_fixed_lengths() {
    let board = staircase();
    for col in 0..COLS {
        assert_eq!(ROWS as usize, board.get_column(&col).len());
    }
    for row in 0..ROWS {
        assert_eq!(COLS as usize, board.get_row(&row).len());
    }
    assert_eq!(vec![C, H, C, H, C, H], values(board.get_column(&6)));
    assert_eq!(vec![C, H, C, E, E, E], values(board.get_column(&3)));
    assert_eq!(vec![E, C, C, C, C, C, C], values(board.get_row(&0)));
    assert_eq!(vec![E, E, E, E, H, H, H], values(board.get_row(&3)));
    assert_eq!(vec![E, E, E, E, E, E, H], values(board.get_row(&5)));
}

#[test]
fn rising_diagonal_runs_from_lower_left_to_upper_right() {
    let board = staircase();
    // Through (3, 2): starts at (1, 0) and ends at (6, 5).
    assert_eq!(
        vec![C, H, C, H, C, H],
        values(board.get_rising_diagonal_as_value_vector(&3, &2))
    );
    // The main diagonal is empty on this board.
    assert_eq!(
        vec![E, E, E, E, E, E],
        values(board.get_rising_diagonal_as_value_vector(&0, &0))
    );
    assert_eq!(
        values(board.get_rising_diagonal_as_value_vector(&5, &5)),
        values(board.get_rising_diagonal_as_value_vector(&2, &2))
    );
    // The corners give the shortest diagonals.
    assert_eq!(vec![E], values(board.get_rising_diagonal_as_value_vector(&0, &5)));
    assert_eq!(vec![C], values(board.get_rising_diagonal_as_value_vector(&6, &0)));
    assert_eq!(vec![C, H], values(board.get_rising_diagonal_as_value_vector(&6, &1)));
    assert_eq!(vec![C, H, C, H], values(board.get_rising_diagonal_as_value_vector(&3, &0)));
    assert_eq!(vec![E, E, E, E], values(board.get_rising_diagonal_as_value_vector(&1, &3)));
}

#[test]
fn falling_diagonal_runs_from_upper_left_to_lower_right() {
    let board = staircase();
    // Through (3, 2): starts at (0, 5) and ends at (5, 0).
    assert_eq!(
        vec![E, E, E, C, H, C],
        values(board.get_falling_diagonal_as_value_vector(&3, &2))
    );
    assert_eq!(
        vec![E, E, E, C, H, C],
        values(board.get_falling_diagonal_as_value_vector(&0, &5))
    );
    // Through (6, 5): starts at (6, 5) and ends there.
    assert_eq!(vec![H], values(board.get_falling_diagonal_as_value_vector(&6, &5)));
    assert_eq!(vec![E], values(board.get_falling_diagonal_as_value_vector(&0, &0)));
    assert_eq!(vec![E, C], values(board.get_falling_diagonal_as_value_vector(&0, &1)));
    assert_eq!(vec![E, E, H, C], values(board.get_falling_diagonal_as_value_vector(&0, &3)));
    // Through (6, 0): starts at (1, 5).
    assert_eq!(
        vec![E, E, E, C, H, C],
        values(board.get_falling_diagonal_as_value_vector(&6, &0))
    );
    // Through (6, 2): starts at (3, 5).
    assert_eq!(vec![E, E, H, C], values(board.get_falling_diagonal_as_value_vector(&6, &2)));
}

#[test]
fn reading_the_board_does_not_change_it() {
    let board = staircase();
    let before: Vec<Vec<CellValue>> = (0..COLS).map(|col| values(board.get_column(&col))).collect();
    for col in 0..COLS {
        for row in 0..ROWS {
            let first = *board.get(&col, &row);
            let _ = board.get_row(&row);
            let _ = board.get_rising_diagonal_as_value_vector(&col, &row);
            let _ = board.get_falling_diagonal_as_value_vector(&col, &row);
            let _ = board.get_lowest_empty_row(&col);
            assert_eq!(first, *board.get(&col, &row));
        }
    }
    let after: Vec<Vec<CellValue>> = (0..COLS).map(|col| values(board.get_column(&col))).collect();
    assert_eq!(before, after);
}

#[test]
fn row_is_shown_with_its_number_and_a_bar() {
    let board = staircase();
    assert_eq!("1 |   C C C C C C", board.row_text(&0));
    assert_eq!("2 |     H H H H H", board.row_text(&1));
    assert_eq!("4 |         H H H", board.row_text(&3));
    assert_eq!("6 |             H", board.row_text(&5));
    assert_eq!("3 |              ", Board::new().row_text(&2));
}

#[test]
fn board_is_shown_top_row_first() {
    let expected = vec![
        "",
        "6 |             H",
        "5 |           C C",
        "4 |         H H H",
        "3 |       C C C C",
        "2 |     H H H H H",
        "1 |   C C C C C C",
        "   --------------",
        "    1 2 3 4 5 6 7 ",
    ];
    assert_eq!(expected, staircase().render());

    let mut board = Board::new();
    board.add_coin(&0, H);
    board.add_coin(&0, C);
    board.add_coin(&6, C);
    let lines = board.render();
    assert_eq!(9, lines.len());
    assert_eq!("2 | C            ", lines[5]);
    assert_eq!("1 | H           C", lines[6]);
}
