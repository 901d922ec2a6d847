//! Character-level building blocks: comment markers, whitespace,
//! ASCII lower-casing, and digit values for the radixes the assembler reads.

use vstd::prelude::*;

verus! {

/// A line comment begins at the first '/', '#', or ';'.
pub open spec fn is_comment_char(c: char) -> bool {
    c == '/' || c == '#' || c == ';'
}

/// ASCII whitespace: what separates tokens and is trimmed from line ends.
pub open spec fn is_space_char(c: char) -> bool {
    c == ' ' || c == '\t' || c == '\n' || c == '\r' || c == '\u{b}' || c == '\u{c}'
}

pub open spec fn is_ascii_digit(c: char) -> bool {
    '0' <= c && c <= '9'
}

/// ASCII lower-casing, applied to every normalized source line.
pub open spec fn lower_char(c: char) -> char {
    if 'A' <= c && c <= 'Z' {
        ((c as u8) + 32) as char
    } else {
        c
    }
}

/// The value of `c` as a digit, or -1 if `c` is no digit at all.
/// Letters serve as digits 10..=15 for base 16, in either case.
pub open spec fn digit_val(c: char) -> int {
    if '0' <= c && c <= '9' {
        c as int - '0' as int
    } else if 'a' <= c && c <= 'f' {
        c as int - 'a' as int + 10
    } else if 'A' <= c && c <= 'F' {
        c as int - 'A' as int + 10
    } else {
        -1
    }
}

/// Is `c` a digit of the given radix?
pub open spec fn is_digit_of(c: char, radix: int) -> bool {
    0 <= digit_val(c) < radix
}

pub fn comment_char(c: char) -> (r: bool)
    ensures
        r == is_comment_char(c),
{
    c == '/' || c == '#' || c == ';'
}

pub fn space_char(c: char) -> (r: bool)
    ensures
        r == is_space_char(c),
{
    c == ' ' || c == '\t' || c == '\n' || c == '\r' || c == '\u{b}' || c == '\u{c}'
}

pub fn to_lower_char(c: char) -> (r: char)
    ensures
        r == lower_char(c),
{
    if 'A' <= c && c <= 'Z' {
        let b: u8 = c as u8;
        assert(b == c as u8);
        ((b + 32) as char)
    } else {
        c
    }
}

/// The value of `c` as a digit, or -1.
pub fn digit_value(c: char) -> (r: i32)
    ensures
        r as int == digit_val(c),
{
    if '0' <= c && c <= '9' {
        (c as u32 - '0' as u32) as i32
    } else if 'a' <= c && c <= 'f' {
        (c as u32 - 'a' as u32 + 10) as i32
    } else if 'A' <= c && c <= 'F' {
        (c as u32 - 'A' as u32 + 10) as i32
    } else {
        -1
    }
}

} // verus!
