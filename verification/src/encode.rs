//! Encoding bytes as plain hex text, the inverse direction of the decoder.

use vstd::prelude::*;

use crate::chars::DIGIT_ZERO;
use crate::chars::LOWER_A;
use crate::chars::UPPER_A;

verus! {

/// The lowercase hex digit byte for a 4-bit value.
pub open spec fn lower_digit(v: u8) -> u8
    recommends
        v < 16,
{
    if v < 10 {
        (DIGIT_ZERO + v) as u8
    } else {
        (LOWER_A + v - 10) as u8
    }
}

/// The uppercase hex digit byte for a 4-bit value.
pub open spec fn upper_digit(v: u8) -> u8
    recommends
        v < 16,
{
    if v < 10 {
        (DIGIT_ZERO + v) as u8
    } else {
        (UPPER_A + v - 10) as u8
    }
}

/// The lowercase hex text for a byte sequence: two digits for each byte,
/// high digit first, no separators and no prefix.
pub open spec fn hex_lower(bytes: Seq<u8>) -> Seq<u8>
    decreases bytes.len(),
{
    if bytes.len() == 0 {
        Seq::empty()
    } else {
        seq![lower_digit(bytes[0] / 16), lower_digit(bytes[0] % 16)] + hex_lower(bytes.skip(1))
    }
}

/// The uppercase hex text for a byte sequence.
pub open spec fn hex_upper(bytes: Seq<u8>) -> Seq<u8>
    decreases bytes.len(),
{
    if bytes.len() == 0 {
        Seq::empty()
    } else {
        seq![upper_digit(bytes[0] / 16), upper_digit(bytes[0] % 16)] + hex_upper(bytes.skip(1))
    }
}

/// The lowercase hex digit byte for a 4-bit value.
fn to_lower_digit(v: u8) -> (r: u8)
    requires
        v < 16,
    ensures
        r == lower_digit(v),
{
    if v < 10 {
        DIGIT_ZERO + v
    } else {
        LOWER_A + v - 10
    }
}

/// Encodes a byte sequence as lowercase hex text with no separators.
pub fn encode_hex(bytes: &[u8]) -> (r: Vec<u8>)
    ensures
        r@ == hex_lower(bytes@),
        r@.len() == 2 * bytes@.len(),
{
    let ghost s = bytes@;
    let mut out: Vec<u8> = Vec::new();
    let mut i: usize = 0;
    proof {
        assert(s.skip(0) =~= s);
    }
    while i < bytes.len()
        invariant
            s == bytes@,
            i <= bytes.len(),
            out@.len() == 2 * i,
            hex_lower(s) == out@ + hex_lower(s.skip(i as int)),
        decreases bytes.len() - i,
    {
        let b = bytes[i];
        proof {
            assert(s.skip(i as int)[0] == b);
            assert(s.skip(i as int).skip(1) =~= s.skip(i as int + 1));
        }
        let hi = to_lower_digit(b / 16);
        let lo = to_lower_digit(b % 16);
        let ghost out0 = out@;
        out.push(hi);
        out.push(lo);
        proof {
            assert(out@ =~= out0 + seq![hi, lo]);
            assert((out0 + seq![hi, lo]) + hex_lower(s.skip(i as int + 1)) =~= out0 + (seq![
                hi,
                lo,
            ] + hex_lower(s.skip(i as int + 1))));
        }
        i = i + 1;
    }
    proof {
        assert(s.skip(i as int) =~= Seq::<u8>::empty());
        assert(out@ + hex_lower(Seq::<u8>::empty()) =~= out@);
    }
    out
}

} // verus!
