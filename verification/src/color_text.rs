//! Text forms of a colour, as the colour picker shows them.
use vstd::prelude::*;
use crate::text::{decimal, push_char, push_decimal};
use crate::theme::Color;

verus! {

/// Upper-case hexadecimal digit of `d` (`0 <= d < 16`).
pub open spec fn hex_char(d: int) -> char {
    if d < 10 { ((d + 48) as u8) as char } else { ((d + 55) as u8) as char }
}

/// Two upper-case hexadecimal digits of a byte, as `{:02X}` writes it.
pub open spec fn hex_byte(v: u8) -> Seq<char> {
    seq![hex_char(v as int / 16), hex_char(v as int % 16)]
}

fn hex_digit_char(d: u8) -> (c: char)
    requires
        d < 16,
    ensures
        c == hex_char(d as int),
{
    if d < 10 { (d + 48) as char } else { (d + 55) as char }
}

fn push_hex_byte(s: &mut String, v: u8)
    ensures
        final(s)@ == old(s)@ + hex_byte(v),
{
    let ghost start = s@;
    push_char(s, hex_digit_char(v / 16));
    push_char(s, hex_digit_char(v % 16));
    assert(s@ =~= start + hex_byte(v));
}

/// `#RRGGBB`: the colour's red, green and blue in upper-case hexadecimal.
pub fn color_to_hex_string(color: Color) -> (s: String)
    ensures
        s@ == seq!['#'] + hex_byte(color.r) + hex_byte(color.g) + hex_byte(color.b),
{
    let mut s = String::new();
    push_char(&mut s, '#');
    push_hex_byte(&mut s, color.r);
    push_hex_byte(&mut s, color.g);
    push_hex_byte(&mut s, color.b);
    s
}

/// `R: r  G: g  B: b`, with the channels in decimal.
pub fn color_to_rgb_string(color: Color) -> (s: String)
    ensures
        s@ == seq!['R', ':', ' '] + decimal(color.r as nat) + seq![' ', ' ', 'G', ':', ' ']
            + decimal(color.g as nat) + seq![' ', ' ', 'B', ':', ' '] + decimal(color.b as nat),
{
    let mut s = String::new();
    push_char(&mut s, 'R');
    push_char(&mut s, ':');
    push_char(&mut s, ' ');
    push_decimal(&mut s, color.r as u64);
    push_char(&mut s, ' ');
    push_char(&mut s, ' ');
    push_char(&mut s, 'G');
    push_char(&mut s, ':');
    push_char(&mut s, ' ');
    push_decimal(&mut s, color.g as u64);
    push_char(&mut s, ' ');
    push_char(&mut s, ' ');
    push_char(&mut s, 'B');
    push_char(&mut s, ':');
    push_char(&mut s, ' ');
    push_decimal(&mut s, color.b as u64);
    assert(s@ =~= seq!['R', ':', ' '] + decimal(color.r as nat) + seq![' ', ' ', 'G', ':', ' ']
        + decimal(color.g as nat) + seq![' ', ' ', 'B', ':', ' '] + decimal(color.b as nat));
    s
}

} // verus!
