//! Color samples and their `#rrggbb` hex rendering.

use vstd::prelude::*;

verus! {

/// One pixel's color sample: red, green and blue at 16-bit precision.
#[derive(Clone, Copy, PartialEq, Eq, Structural, Debug)]
pub struct Rgb16 {
    pub r: u16,
    pub g: u16,
    pub b: u16,
}

/// The lowercase hexadecimal digit character for a value in `0..16`.
pub open spec fn hex_digit(n: int) -> char {
    if n == 0 {
        '0'
    } else if n == 1 {
        '1'
    } else if n == 2 {
        '2'
    } else if n == 3 {
        '3'
    } else if n == 4 {
        '4'
    } else if n == 5 {
        '5'
    } else if n == 6 {
        '6'
    } else if n == 7 {
        '7'
    } else if n == 8 {
        '8'
    } else if n == 9 {
        '9'
    } else if n == 10 {
        'a'
    } else if n == 11 {
        'b'
    } else if n == 12 {
        'c'
    } else if n == 13 {
        'd'
    } else if n == 14 {
        'e'
    } else if n == 15 {
        'f'
    } else {
        arbitrary()
    }
}

/// The two lowercase hex digits of a byte value: high nibble first.
pub open spec fn byte_hex(v: int) -> Seq<char> {
    seq![hex_digit(v / 16), hex_digit(v % 16)]
}

/// The seven-character color string `#rrggbb` of a 16-bit color sample.
/// Each channel is truncated to its high byte by integer division by 256
/// (truncating division, not rounding to nearest).
pub open spec fn color_hex_seq(c: Rgb16) -> Seq<char> {
    seq!['#'] + byte_hex(c.r as int / 256) + byte_hex(c.g as int / 256) + byte_hex(
        c.b as int / 256,
    )
}

/// Relies on `hex_string::u8_to_hex_string`: it returns the two lowercase
/// hex digit characters of the byte, high nibble first, and never panics.
#[verifier::external_body]
fn byte_hex_string(v: u8) -> (r: String)
    ensures
        r@ == byte_hex(v as int),
{
    hex_string::u8_to_hex_string(&v).iter().collect()
}

/// The `#rrggbb` display string of a color sample, each 16-bit channel
/// truncated to its high byte.
pub fn color_hex(c: Rgb16) -> (s: String)
    ensures
        s@ == color_hex_seq(c),
{
    let mut s = String::from_str("#");
    proof {
        reveal_strlit("#");
    }
    let rh = byte_hex_string((c.r / 256) as u8);
    s.append(rh.as_str());
    let gh = byte_hex_string((c.g / 256) as u8);
    s.append(gh.as_str());
    let bh = byte_hex_string((c.b / 256) as u8);
    s.append(bh.as_str());
    proof {
        assert(s@ =~= color_hex_seq(c));
    }
    s
}

} // verus!
