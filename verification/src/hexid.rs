//! Four-digit lowercase hexadecimal identifiers, the form in which udev reports
//! USB vendor and model ids.

use crate::text::{is_lower, lower_char};
use vstd::prelude::*;
use vstd::string::*;

verus! {

/// The lowercase hexadecimal digit that stands for `d`, for `d` below sixteen.
pub open spec fn hex_char(d: int) -> char {
    if d == 0 {
        '0'
    } else if d == 1 {
        '1'
    } else if d == 2 {
        '2'
    } else if d == 3 {
        '3'
    } else if d == 4 {
        '4'
    } else if d == 5 {
        '5'
    } else if d == 6 {
        '6'
    } else if d == 7 {
        '7'
    } else if d == 8 {
        '8'
    } else if d == 9 {
        '9'
    } else if d == 10 {
        'a'
    } else if d == 11 {
        'b'
    } else if d == 12 {
        'c'
    } else if d == 13 {
        'd'
    } else if d == 14 {
        'e'
    } else {
        'f'
    }
}

/// The four hexadecimal digits of `v`, most significant first, zero-padded.
pub open spec fn hex4(v: u16) -> Seq<char> {
    seq![
        hex_char(v as int / 4096),
        hex_char((v as int / 256) % 16),
        hex_char((v as int / 16) % 16),
        hex_char(v as int % 16),
    ]
}

/// The four digits are in lower case.
pub proof fn lemma_hex4_is_lower(v: u16)
    ensures
        hex4(v).len() == 4,
        is_lower(hex4(v)),
{
    assert forall|d: int| lower_char(#[trigger] hex_char(d)) == hex_char(d) by {}
}

/// One hexadecimal digit as a string slice.
fn digit_str(d: u16) -> (s: &'static str)
    requires
        d < 16,
    ensures
        s@ == seq![hex_char(d as int)],
{
    proof {
        reveal_strlit("0");
        reveal_strlit("1");
        reveal_strlit("2");
        reveal_strlit("3");
        reveal_strlit("4");
        reveal_strlit("5");
        reveal_strlit("6");
        reveal_strlit("7");
        reveal_strlit("8");
        reveal_strlit("9");
        reveal_strlit("a");
        reveal_strlit("b");
        reveal_strlit("c");
        reveal_strlit("d");
        reveal_strlit("e");
        reveal_strlit("f");
    }
    match d {
        0 => "0",
        1 => "1",
        2 => "2",
        3 => "3",
        4 => "4",
        5 => "5",
        6 => "6",
        7 => "7",
        8 => "8",
        9 => "9",
        10 => "a",
        11 => "b",
        12 => "c",
        13 => "d",
        14 => "e",
        _ => "f",
    }
}

/// Formats `v` as exactly four lowercase hexadecimal digits.
pub fn format_hex4(v: u16) -> (s: String)
    ensures
        s@ == hex4(v),
{
    let mut s = String::new();
    s.append(digit_str(v / 4096));
    s.append(digit_str((v / 256) % 16));
    s.append(digit_str((v / 16) % 16));
    s.append(digit_str(v % 16));
    s
}

} // verus!
