//! Numbers in upper-case hexadecimal, as stream names and identifiers
//! spell them.

use vstd::prelude::*;
use vstd::string::StringExecFns;

verus! {

/// The upper-case hexadecimal digit of a number below 16.
pub open spec fn hex_digit(value: nat) -> char {
    if value == 0 {
        '0'
    } else if value == 1 {
        '1'
    } else if value == 2 {
        '2'
    } else if value == 3 {
        '3'
    } else if value == 4 {
        '4'
    } else if value == 5 {
        '5'
    } else if value == 6 {
        '6'
    } else if value == 7 {
        '7'
    } else if value == 8 {
        '8'
    } else if value == 9 {
        '9'
    } else if value == 10 {
        'A'
    } else if value == 11 {
        'B'
    } else if value == 12 {
        'C'
    } else if value == 13 {
        'D'
    } else if value == 14 {
        'E'
    } else {
        'F'
    }
}

/// `value` in upper-case hexadecimal, with leading zeros up to `width`
/// digits, and with more digits where the number needs them.
pub open spec fn upper_hex(value: nat, width: nat) -> Seq<char>
    decreases value + width,
{
    if value < 16 && width <= 1 {
        seq![hex_digit(value)]
    } else {
        upper_hex(value / 16, if width > 0 { (width - 1) as nat } else { 0 }).push(hex_digit(value % 16))
    }
}

/// The text of one upper-case hexadecimal digit.
pub fn hex_digit_text(value: u8) -> (text: &'static str)
    requires
        value < 16,
    ensures
        text@ == seq![hex_digit(value as nat)],
{
    proof {
        reveal_strlit("0");
        reveal_strlit("1");
        reveal_strlit("2");
        reveal_strlit("3");
        reveal_strlit("4");
        reveal_strlit("5");
        reveal_strlit("6");
        reveal_strlit("7");
        reveal_strlit("8");
        reveal_strlit("9");
        reveal_strlit("A");
        reveal_strlit("B");
        reveal_strlit("C");
        reveal_strlit("D");
        reveal_strlit("E");
        reveal_strlit("F");
    }
    let text = if value == 0 {
        "0"
    } else if value == 1 {
        "1"
    } else if value == 2 {
        "2"
    } else if value == 3 {
        "3"
    } else if value == 4 {
        "4"
    } else if value == 5 {
        "5"
    } else if value == 6 {
        "6"
    } else if value == 7 {
        "7"
    } else if value == 8 {
        "8"
    } else if value == 9 {
        "9"
    } else if value == 10 {
        "A"
    } else if value == 11 {
        "B"
    } else if value == 12 {
        "C"
    } else if value == 13 {
        "D"
    } else if value == 14 {
        "E"
    } else {
        "F"
    };
    assert(text@ =~= seq![hex_digit(value as nat)]);
    text
}

/// Appends `value` in upper-case hexadecimal to `text`, with leading zeros
/// up to `width` digits.
pub fn push_upper_hex(text: &mut String, value: u64, width: u32)
    ensures
        final(text)@ == old(text)@ + upper_hex(value as nat, width as nat),
    decreases value + width,
{
    if value < 16 && width <= 1 {
        text.append(hex_digit_text(value as u8));
    } else {
        let ghost before = text@;
        let rest_width = if width > 0 {
            width - 1
        } else {
            0
        };
        push_upper_hex(text, value / 16, rest_width);
        text.append(hex_digit_text((value % 16) as u8));
        assert(text@ =~= before + upper_hex(value as nat, width as nat));
    }
}

} // verus!
