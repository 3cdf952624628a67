//! Character classes of single bytes read as characters (`byte as char`),
//! as the lexers see them: Unicode's classes restricted to U+0000..U+00FF.

use vstd::prelude::*;

verus! {

pub open spec fn is_ascii_letter(b: u8) -> bool {
    (65 <= b <= 90) || (97 <= b <= 122)
}

/// `(b as char).is_alphabetic()`.
pub open spec fn is_alphabetic_byte(b: u8) -> bool {
    ||| is_ascii_letter(b)
    ||| b == 0xAA
    ||| b == 0xB5
    ||| b == 0xBA
    ||| (0xC0 <= b && b != 0xD7 && b != 0xF7)
}

/// `(b as char).is_numeric()`.
pub open spec fn is_numeric_byte(b: u8) -> bool {
    ||| (48 <= b <= 57)
    ||| b == 0xB2
    ||| b == 0xB3
    ||| b == 0xB9
    ||| (0xBC <= b <= 0xBE)
}

/// `(b as char).is_alphanumeric()`.
pub open spec fn is_alphanumeric_byte(b: u8) -> bool {
    is_alphabetic_byte(b) || is_numeric_byte(b)
}

/// `(b as char).is_whitespace()`.
pub open spec fn is_whitespace_byte(b: u8) -> bool {
    (9 <= b <= 13) || b == 32 || b == 0x85 || b == 0xA0
}

/// The value of `b` as a digit of any radix up to 36 (`char::to_digit`
/// before the radix check), or 36 where it is no digit at all.
pub open spec fn digit_value(b: u8) -> nat {
    if 48 <= b <= 57 {
        (b - 48) as nat
    } else if 97 <= b <= 122 {
        (b - 87) as nat
    } else if 65 <= b <= 90 {
        (b - 55) as nat
    } else {
        36
    }
}

/// `(b as char).is_digit(radix)`.
pub open spec fn is_digit_byte(b: u8, radix: nat) -> bool {
    digit_value(b) < radix
}

/// The characters that a run of bytes reads as, one per byte.
pub open spec fn bytes_as_chars(s: Seq<u8>) -> Seq<char> {
    s.map_values(|b: u8| b as char)
}

pub fn alphabetic(b: u8) -> (r: bool)
    ensures
        r == is_alphabetic_byte(b),
{
    (65 <= b && b <= 90) || (97 <= b && b <= 122) || b == 0xAA || b == 0xB5 || b == 0xBA || (0xC0
        <= b && b != 0xD7 && b != 0xF7)
}

pub fn alphanumeric(b: u8) -> (r: bool)
    ensures
        r == is_alphanumeric_byte(b),
{
    alphabetic(b) || (48 <= b && b <= 57) || b == 0xB2 || b == 0xB3 || b == 0xB9 || (0xBC <= b
        && b <= 0xBE)
}

pub fn whitespace(b: u8) -> (r: bool)
    ensures
        r == is_whitespace_byte(b),
{
    (9 <= b && b <= 13) || b == 32 || b == 0x85 || b == 0xA0
}

/// The digit value of `b` (36 where it is no digit).
pub fn digit(b: u8) -> (r: u8)
    ensures
        r == digit_value(b),
{
    if 48 <= b && b <= 57 {
        b - 48
    } else if 97 <= b && b <= 122 {
        b - 87
    } else if 65 <= b && b <= 90 {
        b - 55
    } else {
        36
    }
}

/// `b` as a character.
pub fn byte_char(b: u8) -> (c: char)
    ensures
        c == b as char,
{
    b as char
}

/// std's `==` on `str`: true exactly when the two strings hold the same
/// characters, which is all the contract claims.
#[verifier::external_body]
pub(crate) fn str_eq(a: &str, b: &str) -> (r: bool)
    ensures
        r == (a@ == b@),
{
    a == b
}

} // verus!
