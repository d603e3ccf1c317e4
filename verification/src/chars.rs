//! Classification of single input bytes: separators and hex digits.

use vstd::prelude::*;

verus! {

/// ASCII space.
pub const SPACE: u8 = 32;

/// ASCII double quote.
pub const QUOTE: u8 = 34;

/// ASCII underscore.
pub const UNDERSCORE: u8 = 95;

/// ASCII pipe.
pub const PIPE: u8 = 124;

/// ASCII dash.
pub const DASH: u8 = 45;

/// ASCII newline.
pub const NEWLINE: u8 = 10;

/// ASCII `0`.
pub const DIGIT_ZERO: u8 = 48;

/// ASCII `9`.
pub const DIGIT_NINE: u8 = 57;

/// ASCII `A`.
pub const UPPER_A: u8 = 65;

/// ASCII `F`.
pub const UPPER_F: u8 = 70;

/// ASCII `X`.
pub const UPPER_X: u8 = 88;

/// ASCII `a`.
pub const LOWER_A: u8 = 97;

/// ASCII `f`.
pub const LOWER_F: u8 = 102;

/// ASCII `x`.
pub const LOWER_X: u8 = 120;

/// The fixed separator set: space, double quote, underscore, pipe, dash,
/// newline.  These bytes are ignored when digits are paired.
pub open spec fn is_separator(c: u8) -> bool {
    c == SPACE || c == QUOTE || c == UNDERSCORE || c == PIPE || c == DASH || c == NEWLINE
}

/// A byte that stands for one hex digit: `0`-`9`, `A`-`F` or `a`-`f`.
pub open spec fn is_hex_digit(c: u8) -> bool {
    (DIGIT_ZERO <= c && c <= DIGIT_NINE) || (UPPER_A <= c && c <= UPPER_F) || (LOWER_A <= c && c
        <= LOWER_F)
}

/// The 4-bit value of a hex digit byte.
pub open spec fn hex_digit_value(c: u8) -> u8
    recommends
        is_hex_digit(c),
{
    if DIGIT_ZERO <= c && c <= DIGIT_NINE {
        (c - DIGIT_ZERO) as u8
    } else if UPPER_A <= c && c <= UPPER_F {
        (c - UPPER_A + 10) as u8
    } else {
        (c - LOWER_A + 10) as u8
    }
}

/// Membership test for the separator set.
pub fn is_valid_delimiter(c: u8) -> (r: bool)
    ensures
        r == is_separator(c),
{
    c == SPACE || c == QUOTE || c == UNDERSCORE || c == PIPE || c == DASH || c == NEWLINE
}

/// Membership test for the hex digit set.
pub fn is_hex_digit_byte(c: u8) -> (r: bool)
    ensures
        r == is_hex_digit(c),
{
    (DIGIT_ZERO <= c && c <= DIGIT_NINE) || (UPPER_A <= c && c <= UPPER_F) || (LOWER_A <= c && c
        <= LOWER_F)
}

/// Converts an individual hex digit byte into its 4-bit value.
pub fn to_ordinal(input: u8) -> (r: u8)
    requires
        is_hex_digit(input),
    ensures
        r == hex_digit_value(input),
        r < 16,
{
    if DIGIT_ZERO <= input && input <= DIGIT_NINE {
        input - DIGIT_ZERO
    } else if UPPER_A <= input && input <= UPPER_F {
        input - UPPER_A + 10
    } else {
        input - LOWER_A + 10
    }
}

} // verus!
