use vstd::prelude::*;
use crate::error::ConvertError;

verus! {

/// An opaque color: red, green and blue channels in that order.
pub type Rgb = (u8, u8, u8);

pub open spec fn is_hex_digit(c: char) -> bool {
    ('0' <= c && c <= '9') || ('a' <= c && c <= 'f') || ('A' <= c && c <= 'F')
}

/// Value of a hex digit, either case.
pub open spec fn hex_digit_value(c: char) -> int {
    if '0' <= c && c <= '9' {
        c as int - '0' as int
    } else if 'a' <= c && c <= 'f' {
        c as int - 'a' as int + 10
    } else {
        c as int - 'A' as int + 10
    }
}

/// The text after one optional leading `#`.
pub open spec fn strip_hash(s: Seq<char>) -> Seq<char> {
    if s.len() > 0 && s[0] == '#' { s.drop_first() } else { s }
}

/// The byte written by two hex digits at `i` and `i + 1`.
pub open spec fn hex_byte_at(d: Seq<char>, i: int) -> u8 {
    (hex_digit_value(d[i]) * 16 + hex_digit_value(d[i + 1])) as u8
}

/// The color that `s` writes as `RRGGBB` with an optional leading `#`, or
/// `None` when what follows the `#` is not exactly six hex digits.
pub open spec fn hex_color(s: Seq<char>) -> Option<Rgb> {
    let d = strip_hash(s);
    if d.len() == 6 && forall|i: int| 0 <= i < 6 ==> is_hex_digit(#[trigger] d[i]) {
        Some((hex_byte_at(d, 0), hex_byte_at(d, 2), hex_byte_at(d, 4)))
    } else {
        None
    }
}

/// Value of one hex digit, `None` for any other character.
pub fn hex_digit(c: char) -> (r: Option<u8>)
    ensures
        r == (if is_hex_digit(c) { Some(hex_digit_value(c) as u8) } else { None::<u8> }),
{
    if '0' <= c && c <= '9' {
        Some(((c as u32) - ('0' as u32)) as u8)
    } else if 'a' <= c && c <= 'f' {
        Some(((c as u32) - ('a' as u32) + 10) as u8)
    } else if 'A' <= c && c <= 'F' {
        Some(((c as u32) - ('A' as u32) + 10) as u8)
    } else {
        None
    }
}

/// Parses an `RRGGBB` color with an optional leading `#`. Any other length,
/// or a character that is not a hex digit, is an `InvalidColor` error that
/// names the input.
pub fn parse_hex_color(hex: &str) -> (r: Result<Rgb, ConvertError>)
    ensures
        match hex_color(hex@) {
            Some(c) => r == Ok::<Rgb, ConvertError>(c),
            None => r matches Err(ConvertError::InvalidColor(v)) && v@ == hex@,
        },
{
    let len = hex.unicode_len();
    let start: usize = if len > 0 && hex.get_char(0) == '#' { 1 } else { 0 };
    let ghost d = strip_hash(hex@);
    assert(d == hex@.skip(start as int));
    if len - start != 6 {
        return Err(ConvertError::InvalidColor(hex.to_string()));
    }
    let mut digits: Vec<u8> = Vec::new();
    let mut i: usize = 0;
    while i < 6
        invariant
            len == hex@.len(),
            start + 6 == len,
            d == hex@.skip(start as int),
            i <= 6,
            digits@.len() == i,
            forall|k: int| 0 <= k < i ==> is_hex_digit(#[trigger] d[k]),
            forall|k: int| 0 <= k < i ==> digits@[k] == hex_digit_value(#[trigger] d[k]) as u8,
        decreases 6 - i,
    {
        match hex_digit(hex.get_char(start + i)) {
            Some(v) => digits.push(v),
            None => {
                assert(!is_hex_digit(d[i as int]));
                return Err(ConvertError::InvalidColor(hex.to_string()));
            },
        }
        i = i + 1;
    }
    let red = digits[0] * 16 + digits[1];
    let green = digits[2] * 16 + digits[3];
    let blue = digits[4] * 16 + digits[5];
    Ok((red, green, blue))
}

} // verus!
