//! The mathematical model: what a hex text decodes to.
//!
//! The model works in three layers.  `strip_separators` keeps the bytes that
//! are not separators; `prefix_pairs` counts the digit-pair positions taken
//! by a `0x`/`0X` marker; `decode_pairs` walks the stripped bytes two at a
//! time and either skips a prefix pair or turns two digits into one byte.
//! `hex_decode` ties the layers together with the parity rule: the number of
//! significant digits must be even before any pair is decoded.

use vstd::prelude::*;

use crate::chars::hex_digit_value;
use crate::chars::is_hex_digit;
use crate::chars::is_separator;
use crate::chars::DIGIT_ZERO;
use crate::chars::LOWER_X;
use crate::chars::UPPER_X;

verus! {

/// How a decode can fail: an odd count of significant digits, found before
/// any pairing starts, or a byte outside the digit, separator and prefix
/// sets, reported with the offending byte.
#[derive(Clone, Copy, Debug, PartialEq, Eq, Structural)]
pub enum HexError {
    OddDigitCount,
    InvalidDigit(u8),
}

/// The significant bytes of an input: the input with every separator
/// removed, order kept.
pub open spec fn strip_separators(s: Seq<u8>) -> Seq<u8>
    decreases s.len(),
{
    if s.len() == 0 {
        Seq::empty()
    } else if is_separator(s[0]) {
        strip_separators(s.skip(1))
    } else {
        seq![s[0]] + strip_separators(s.skip(1))
    }
}

/// A `0x`/`0X` marker standing where a digit pair would.
pub open spec fn is_prefix_pair(hi: u8, lo: u8) -> bool {
    hi == DIGIT_ZERO && (lo == LOWER_X || lo == UPPER_X)
}

/// How many pairs of a separator-stripped input are prefix markers.
pub open spec fn prefix_pairs(d: Seq<u8>) -> nat
    decreases d.len(),
{
    if d.len() < 2 {
        0
    } else if is_prefix_pair(d[0], d[1]) {
        prefix_pairs(d.skip(2)) + 1
    } else {
        prefix_pairs(d.skip(2))
    }
}

/// The count of significant hex digits: the input bytes less the separators
/// and less the two bytes of each prefix marker.
pub open spec fn significant_digits(s: Seq<u8>) -> int {
    strip_separators(s).len() - 2 * prefix_pairs(strip_separators(s))
}

/// The skip count: how many input bytes take no part in pairing, that is
/// the separators plus the two bytes of each prefix marker.
pub open spec fn skipped_bytes(s: Seq<u8>) -> int {
    s.len() - significant_digits(s)
}

/// The byte that a pair of hex digit bytes stands for.
pub open spec fn pair_value(hi: u8, lo: u8) -> u8
    recommends
        is_hex_digit(hi),
        is_hex_digit(lo),
{
    (hex_digit_value(hi) * 16 + hex_digit_value(lo)) as u8
}

/// Decodes a separator-stripped input two bytes at a time, left to right:
/// a prefix pair is skipped, a pair of digits becomes one byte, and the
/// first byte that is no hex digit is the reported failure.
pub open spec fn decode_pairs(d: Seq<u8>) -> Result<Seq<u8>, HexError>
    recommends
        d.len() % 2 == 0,
    decreases d.len(),
{
    if d.len() < 2 {
        Ok(Seq::empty())
    } else if is_prefix_pair(d[0], d[1]) {
        decode_pairs(d.skip(2))
    } else if !is_hex_digit(d[0]) {
        Err(HexError::InvalidDigit(d[0]))
    } else if !is_hex_digit(d[1]) {
        Err(HexError::InvalidDigit(d[1]))
    } else {
        match decode_pairs(d.skip(2)) {
            Ok(rest) => Ok(seq![pair_value(d[0], d[1])] + rest),
            Err(e) => Err(e),
        }
    }
}

/// What a hex text decodes to: an odd count of significant digits is
/// rejected before any pair is read; otherwise the stripped bytes are
/// decoded pair by pair.
pub open spec fn hex_decode(s: Seq<u8>) -> Result<Seq<u8>, HexError> {
    if significant_digits(s) % 2 != 0 {
        Err(HexError::OddDigitCount)
    } else {
        decode_pairs(strip_separators(s))
    }
}

/// At most half of a stripped input can be prefix markers, so the count of
/// significant digits is never negative.
pub proof fn lemma_prefix_pairs_bound(d: Seq<u8>)
    ensures
        2 * prefix_pairs(d) <= d.len(),
    decreases d.len(),
{
    if d.len() >= 2 {
        lemma_prefix_pairs_bound(d.skip(2));
    }
}

/// Stripping a single byte keeps it exactly when it is no separator.
pub proof fn lemma_strip_singleton(c: u8)
    ensures
        strip_separators(seq![c]) == if is_separator(c) {
            Seq::<u8>::empty()
        } else {
            seq![c]
        },
{
    assert(seq![c].skip(1) =~= Seq::<u8>::empty());
    assert(strip_separators(Seq::<u8>::empty()) =~= Seq::<u8>::empty());
    if !is_separator(c) {
        assert(seq![c] + Seq::<u8>::empty() =~= seq![c]);
    }
}

/// Stripping separators distributes over concatenation.
pub proof fn lemma_strip_add(a: Seq<u8>, b: Seq<u8>)
    ensures
        strip_separators(a + b) == strip_separators(a) + strip_separators(b),
    decreases a.len(),
{
    if a.len() == 0 {
        assert(a + b =~= b);
        assert(strip_separators(a) + strip_separators(b) =~= strip_separators(b));
    } else {
        lemma_strip_add(a.skip(1), b);
        assert((a + b).skip(1) =~= a.skip(1) + b);
        assert((a + b)[0] == a[0]);
        if !is_separator(a[0]) {
            assert(seq![a[0]] + (strip_separators(a.skip(1)) + strip_separators(b)) =~= (seq![
                a[0],
            ] + strip_separators(a.skip(1))) + strip_separators(b));
        }
    }
}

/// A successful pair decode yields exactly one byte for each pair that is
/// not a prefix marker.
pub proof fn lemma_decode_pairs_len(d: Seq<u8>)
    requires
        d.len() % 2 == 0,
        decode_pairs(d) is Ok,
    ensures
        2 * decode_pairs(d)->Ok_0.len() == d.len() - 2 * prefix_pairs(d),
    decreases d.len(),
{
    if d.len() >= 2 {
        lemma_decode_pairs_len(d.skip(2));
    }
}

} // verus!
