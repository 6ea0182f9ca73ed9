//! Numbers written out in decimal.

use vstd::prelude::*;
use vstd::string::StringExecFns;

verus! {

/// The character for the digit `digit`.
pub open spec fn numeral(digit: int) -> char {
    ('0' as int + digit) as char
}

/// The decimal digits of `number`, the most significant first.
pub open spec fn decimal(number: nat) -> Seq<char>
    decreases number,
{
    if number < 10 {
        seq![numeral(number as int)]
    } else {
        decimal(number / 10).push(numeral((number % 10) as int))
    }
}

/// `number` as it is written: its decimal digits, after a minus sign if it
/// is below zero.
pub open spec fn signed_decimal(number: int) -> Seq<char> {
    if number < 0 {
        seq!['-'] + decimal((-number) as nat)
    } else {
        decimal(number as nat)
    }
}

/// The digit `digit` as a string.
fn digit_str(digit: u8) -> (text: &'static str)
    requires
        digit < 10,
    ensures
        text@ == seq![numeral(digit as int)],
{
    proof {
        reveal_strlit("0");
        reveal_strlit("1");
        reveal_strlit("2");
        reveal_strlit("3");
        reveal_strlit("4");
        reveal_strlit("5");
        reveal_strlit("6");
        reveal_strlit("7");
        reveal_strlit("8");
        reveal_strlit("9");
    }
    let text = match digit {
        0 => "0",
        1 => "1",
        2 => "2",
        3 => "3",
        4 => "4",
        5 => "5",
        6 => "6",
        7 => "7",
        8 => "8",
        _ => "9",
    };
    assert(text@ =~= seq![numeral(digit as int)]);
    text
}

/// Writes `number` in decimal.
pub fn write_unsigned(number: u128) -> (text: String)
    ensures
        text@ == decimal(number as nat),
    decreases number,
{
    if number < 10 {
        String::from_str(digit_str(number as u8))
    } else {
        let text = write_unsigned(number / 10).concat(digit_str((number % 10) as u8));
        assert(text@ =~= decimal(number as nat));
        text
    }
}

/// Writes the position `position` in decimal.
pub fn write_position(position: usize) -> (text: String)
    ensures
        text@ == decimal(position as nat),
{
    write_unsigned(position as u128)
}

/// Writes `number` in decimal, with a minus sign if it is below zero.
pub fn write_signed(number: i128) -> (text: String)
    ensures
        text@ == signed_decimal(number as int),
{
    if number < 0 {
        let magnitude: u128 = if number == i128::MIN {
            0x8000_0000_0000_0000_0000_0000_0000_0000
        } else {
            (-number) as u128
        };
        proof {
            reveal_strlit("-");
        }
        let text = String::from_str("-").concat(write_unsigned(magnitude).as_str());
        assert(text@ =~= signed_decimal(number as int));
        text
    } else {
        write_unsigned(number as u128)
    }
}

} // verus!
