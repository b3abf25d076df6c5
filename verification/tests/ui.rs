use connect_four::ui::{column_from_input, is_quit_command, parse_u8, InputError};

#[test]
fn column_numbers_are_counted_from_one() {
    for typed in 1..=7u8 {
        assert_eq!(Ok(typed - 1), column_from_input(&typed.to_string()));
    }
    assert_eq!(Ok(0), column_from_input("1"));
    assert_eq!(Ok(6), column_from_input("7"));
    assert_eq!(Ok(2), column_from_input("+3"));
    assert_eq!(Ok(6), column_from_input("007"));
}

#[test]
fn numbers_off_the_board_are_out_of_range() {
    for typed in ["0", "8", "9", "10", "17", "255", "+0", "000", "0255"] {
        assert_eq!(Err(InputError::OutOfRange), column_from_input(typed), "{typed:?}");
    }
}

#[test]
fn other_input_is_not_a_number() {
    for typed in [
        "", "+", "-", "-1", "-0", "a", "q", "1a", "a1", " 1", "1 ", "1.5", "256", "300", "1000",
        "++1", "1+", "0x3", "٣", "１",
    ] {
        assert_eq!(Err(InputError::NotANumber), column_from_input(typed), "{typed:?}");
    }
}

#[test]
fn numbers_are_read_as_the_standard_library_reads_them() {
    for number in 0..2000u32 {
        for typed in [
            number.to_string(),
            format!("+{number}"),
            format!("-{number}"),
            format!("0{number}"),
            format!("{number}0"),
            format!("{number} "),
            format!("{number}x"),
        ] {
            assert_eq!(typed.parse::<u8>().ok(), parse_u8(&typed), "{typed:?}");
        }
    }
    for typed in
        ["", "+", "-", "+-1", "é", "1é", "00000000000000000000255", "00000000000000000000256"]
    {
        assert_eq!(typed.parse::<u8>().ok(), parse_u8(typed), "{typed:?}");
    }
    assert_eq!(Some(255), parse_u8("255"));
    assert_eq!(Some(250), parse_u8("250"));
    assert_eq!(Some(249), parse_u8("249"));
    assert_eq!(None, parse_u8("256"));
    assert_eq!(None, parse_u8("260"));
    assert_eq!(Some(0), parse_u8("0"));
}

#[test]
fn q_leaves_the_game() {
    assert!(is_quit_command("q"));
    for typed in ["", "Q", "qq", " q", "q ", "quit", "1"] {
        assert!(!is_quit_command(typed), "{typed:?}");
    }
}
