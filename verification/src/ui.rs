//! What the player types: which column a line of input names, and whether it
//! asks to leave the game.

use vstd::prelude::*;
use vstd::string::StrSliceExecFns;

use crate::COLS;

verus! {

/// Why a line of input names no column.
#[derive(PartialEq, Eq, Structural, Clone, Copy, Debug)]
pub enum InputError {
    /// The input is a number, but the board has no column of that number.
    OutOfRange,
    /// The input is not a number that fits in eight bits.
    NotANumber,
}

/// `c` is one of the ten decimal digits.
pub open spec fn is_digit(c: char) -> bool {
    '0' <= c <= '9'
}

/// Every character of the list is a decimal digit.
pub open spec fn all_digits(digits: Seq<char>) -> bool {
    forall|i: int| 0 <= i < digits.len() ==> is_digit(#[trigger] digits[i])
}

/// The text without the plus sign that it may begin with.
pub open spec fn after_sign(text: Seq<char>) -> Seq<char> {
    if text.len() > 0 && text[0] == '+' {
        text.skip(1)
    } else {
        text
    }
}

/// The number that a list of decimal digits denotes; the empty list denotes
/// zero.
pub open spec fn decimal_value(digits: Seq<char>) -> nat
    decreases digits.len(),
{
    if digits.len() == 0 {
        0
    } else {
        (10 * decimal_value(digits.drop_last()) + (digits.last() as nat - '0' as nat)) as nat
    }
}

/// The number that `text` denotes as an unsigned number of eight bits: `text`
/// is a list of one or more decimal digits, with or without a plus sign
/// before them, and the number they denote is at most 255. Any other text
/// denotes no number.
pub open spec fn parsed_number(text: Seq<char>) -> Option<u8> {
    let digits = after_sign(text);
    if digits.len() > 0 && all_digits(digits) && decimal_value(digits) <= u8::MAX {
        Some(decimal_value(digits) as u8)
    } else {
        None
    }
}

/// The column that a number typed by the player names: the player counts
/// the columns from 1, the board from 0.
pub open spec fn column_of_number(parsed: Option<u8>) -> Result<u8, InputError> {
    match parsed {
        Some(number) => if 1 <= number <= COLS {
            Ok((number - 1) as u8)
        } else {
            Err(InputError::OutOfRange)
        },
        None => Err(InputError::NotANumber),
    }
}

/// The number that the first digits of a list denote is no greater than the
/// number that the whole list denotes.
proof fn lemma_decimal_value_grows(digits: Seq<char>, count: int)
    requires
        0 <= count <= digits.len(),
        all_digits(digits),
    ensures
        decimal_value(digits.take(count)) <= decimal_value(digits),
    decreases digits.len() - count,
{
    if count < digits.len() {
        let longer = digits.take(count + 1);
        assert(longer.drop_last() =~= digits.take(count));
        lemma_decimal_value_grows(digits, count + 1);
    } else {
        assert(digits.take(count) =~= digits);
    }
}

/// Reads `input` as an unsigned decimal number of eight bits.
pub fn parse_u8(input: &str) -> (parsed: Option<u8>)
    ensures
        parsed == parsed_number(input@),
{
    let len: usize = input.unicode_len();
    let start: usize = if len > 0 && input.get_char(0) == '+' {
        1
    } else {
        0
    };
    if start == len {
        return None;
    }
    let ghost digits = after_sign(input@);
    let mut value: u8 = 0;
    let mut index: usize = start;
    while index < len
        invariant
            len == input@.len(),
            start <= index <= len,
            digits == after_sign(input@),
            digits == input@.skip(start as int),
            forall|i: int| 0 <= i < index - start ==> is_digit(#[trigger] digits[i]),
            value == decimal_value(digits.take(index - start)),
        decreases len - index,
    {
        let c: char = input.get_char(index);
        assert(c == digits[index - start]);
        if c < '0' || c > '9' {
            return None;
        }
        let digit: u8 = (c as u32 - '0' as u32) as u8;
        proof {
            let longer = digits.take(index - start + 1);
            assert(longer.drop_last() =~= digits.take(index - start));
            if 10 * value + digit > u8::MAX {
                if all_digits(digits) {
                    lemma_decimal_value_grows(digits, index - start + 1);
                }
            }
        }
        if value > 25 || (value == 25 && digit > 5) {
            return None;
        }
        value = value * 10 + digit;
        index += 1;
    }
    assert(digits.take(index - start) =~= digits);
    Some(value)
}

/// The column that the player's input names. The player writes the number
/// of a column, counted from 1; the column is reported counted from 0.
pub fn column_from_input(input: &str) -> (column: Result<u8, InputError>)
    ensures
        column == column_of_number(parsed_number(input@)),
        column matches Ok(col) ==> col < COLS,
{
    match parse_u8(input) {
        Some(n) => {
            if n < 1 || n > COLS {
                Err(InputError::OutOfRange)
            } else {
                Ok(n - 1)
            }
        },
        None => Err(InputError::NotANumber),
    }
}

/// Tells whether the player's input asks to leave the game: it does where
/// it is the letter `q` and nothing else.
pub fn is_quit_command(input: &str) -> (quit: bool)
    ensures
        quit == (input@ == seq!['q']),
{
    let quit = input.unicode_len() == 1 && input.get_char(0) == 'q';
    assert(quit ==> input@ =~= seq!['q']);
    quit
}

} // verus!
