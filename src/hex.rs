use vstd::prelude::*;
use crate::editor::Rgb;

verus! {

pub open spec fn is_hex_digit(c: char) -> bool {
    ('0' <= c && c <= '9') || ('a' <= c && c <= 'f') || ('A' <= c && c <= 'F')
}

/// Value of a hexadecimal digit.
pub open spec fn hex_value(c: char) -> int {
    if '0' <= c && c <= '9' {
        c as int - '0' as int
    } else if 'a' <= c && c <= 'f' {
        c as int - 'a' as int + 10
    } else {
        c as int - 'A' as int + 10
    }
}

/// The byte that two hexadecimal digits spell.
pub open spec fn byte_of(hi: char, lo: char) -> int {
    16 * hex_value(hi) + hex_value(lo)
}

/// `s` is exactly six hexadecimal digits.
pub open spec fn is_hex_triple(s: Seq<char>) -> bool {
    s.len() == 6 && forall|i: int| 0 <= i < 6 ==> is_hex_digit(#[trigger] s[i])
}

pub open spec fn upper_of(c: char) -> char {
    if 'a' <= c && c <= 'z' {
        (((c as u32) - 32) as u8) as char
    } else {
        c
    }
}

pub fn hex_digit_check(c: char) -> (r: bool)
    ensures
        r == is_hex_digit(c),
{
    ('0' <= c && c <= '9') || ('a' <= c && c <= 'f') || ('A' <= c && c <= 'F')
}

/// The ASCII upper-case form of `c`; other characters are kept.
pub fn to_upper(c: char) -> (r: char)
    ensures
        r == upper_of(c),
{
    if 'a' <= c && c <= 'z' {
        (((c as u32) - 32) as u8) as char
    } else {
        c
    }
}

fn digit_value(c: char) -> (r: u8)
    requires
        is_hex_digit(c),
    ensures
        r as int == hex_value(c),
{
    if '0' <= c && c <= '9' {
        ((c as u32) - ('0' as u32)) as u8
    } else if 'a' <= c && c <= 'f' {
        ((c as u32) - ('a' as u32) + 10) as u8
    } else {
        ((c as u32) - ('A' as u32) + 10) as u8
    }
}

/// Reads six hexadecimal digits as a red, green, blue triple; `None` for
/// anything else.
pub fn parse_hex_color(s: &Vec<char>) -> (r: Option<Rgb>)
    ensures
        r is Some <==> is_hex_triple(s@),
        r is Some ==> r->0 == (Rgb {
            r: byte_of(s@[0], s@[1]) as u8,
            g: byte_of(s@[2], s@[3]) as u8,
            b: byte_of(s@[4], s@[5]) as u8,
        }),
{
    if s.len() != 6 {
        return None;
    }
    let mut i: usize = 0;
    while i < 6
        invariant
            s@.len() == 6,
            i <= 6,
            forall|j: int| 0 <= j < i ==> is_hex_digit(#[trigger] s@[j]),
        decreases 6 - i,
    {
        if !hex_digit_check(s[i]) {
            return None;
        }
        i = i + 1;
    }
    let r = 16 * digit_value(s[0]) + digit_value(s[1]);
    let g = 16 * digit_value(s[2]) + digit_value(s[3]);
    let b = 16 * digit_value(s[4]) + digit_value(s[5]);
    Some(Rgb { r, g, b })
}

} // verus!
