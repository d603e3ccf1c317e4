//! The guarantees that relate the decoder's operations to one another.

use vstd::prelude::*;

use crate::chars::hex_digit_value;
use crate::chars::is_hex_digit;
use crate::chars::is_separator;
use crate::encode::hex_lower;
use crate::encode::hex_upper;
use crate::encode::lower_digit;
use crate::encode::upper_digit;
use crate::model::decode_pairs;
use crate::model::hex_decode;
use crate::model::is_prefix_pair;
use crate::model::lemma_strip_add;
use crate::model::lemma_strip_singleton;
use crate::model::pair_value;
use crate::model::prefix_pairs;
use crate::model::strip_separators;
use crate::model::HexError;

verus! {

/// Law: the decoded value depends only on the significant bytes.  Two
/// inputs that agree once their separators are removed decode alike,
/// whichever mixture of accepted separators each of them carries.
pub proof fn lemma_separator_invariance(s1: Seq<u8>, s2: Seq<u8>)
    requires
        strip_separators(s1) == strip_separators(s2),
    ensures
        hex_decode(s1) == hex_decode(s2),
{
}

/// Law: inserting one accepted separator at any position leaves the
/// decoded value unchanged; read right to left, so does removing one.
pub proof fn lemma_insert_separator(s: Seq<u8>, k: int, c: u8)
    requires
        0 <= k <= s.len(),
        is_separator(c),
    ensures
        hex_decode(s.insert(k, c)) == hex_decode(s),
{
    let front = s.take(k);
    let back = s.skip(k);
    assert(s.insert(k, c) =~= front + (seq![c] + back));
    lemma_strip_add(front, seq![c] + back);
    lemma_strip_add(seq![c], back);
    lemma_strip_singleton(c);
    assert(strip_separators(seq![c]) + strip_separators(back) =~= strip_separators(back));
    lemma_strip_add(front, back);
    assert(front + back =~= s);
    assert(strip_separators(s.insert(k, c)) == strip_separators(s));
    lemma_separator_invariance(s.insert(k, c), s);
}

/// A hex text made of digit pairs alone: no separators, no prefix marker,
/// each pair decoding back to the byte it was made from.
proof fn lemma_digit_pair_text(enc: Seq<u8>, bytes: Seq<u8>, hi: u8, lo: u8)
    requires
        bytes.len() > 0,
        hi == enc[0] && lo == enc[1],
        enc.len() >= 2,
        is_hex_digit(hi) && is_hex_digit(lo),
        !is_separator(hi) && !is_separator(lo),
        !is_prefix_pair(hi, lo),
        pair_value(hi, lo) == bytes[0],
        strip_separators(enc.skip(2)) == enc.skip(2),
        prefix_pairs(enc.skip(2)) == 0,
        decode_pairs(enc.skip(2)) == Ok::<Seq<u8>, HexError>(bytes.skip(1)),
    ensures
        strip_separators(enc) == enc,
        prefix_pairs(enc) == 0,
        decode_pairs(enc) == Ok::<Seq<u8>, HexError>(bytes),
{
    let tail = enc.skip(2);
    lemma_strip_add(seq![hi, lo], tail);
    assert(seq![hi, lo] + tail =~= enc);
    lemma_strip_add(seq![hi], seq![lo]);
    lemma_strip_singleton(hi);
    lemma_strip_singleton(lo);
    assert(seq![hi] + seq![lo] =~= seq![hi, lo]);
    assert(strip_separators(seq![hi, lo]) =~= seq![hi, lo]);
    assert(strip_separators(enc) =~= enc);
    assert(decode_pairs(enc) == Ok::<Seq<u8>, HexError>(seq![bytes[0]] + bytes.skip(1)));
    assert(seq![bytes[0]] + bytes.skip(1) =~= bytes);
}

/// The lowercase hex text of a byte sequence has no separators, carries no
/// prefix marker, and decodes pair by pair to the sequence it encodes.
proof fn lemma_hex_lower_decodes(bytes: Seq<u8>)
    ensures
        hex_lower(bytes).len() == 2 * bytes.len(),
        strip_separators(hex_lower(bytes)) == hex_lower(bytes),
        prefix_pairs(hex_lower(bytes)) == 0,
        decode_pairs(hex_lower(bytes)) == Ok::<Seq<u8>, HexError>(bytes),
    decreases bytes.len(),
{
    let enc = hex_lower(bytes);
    if bytes.len() == 0 {
        assert(enc =~= Seq::<u8>::empty());
        assert(bytes =~= Seq::<u8>::empty());
        assert(strip_separators(enc) =~= Seq::<u8>::empty());
        assert(decode_pairs(enc) == Ok::<Seq<u8>, HexError>(Seq::<u8>::empty()));
    } else {
        lemma_hex_lower_decodes(bytes.skip(1));
        let hi = lower_digit(bytes[0] / 16);
        let lo = lower_digit(bytes[0] % 16);
        assert(enc.skip(2) =~= hex_lower(bytes.skip(1)));
        assert(hex_digit_value(hi) == bytes[0] / 16 && hex_digit_value(lo) == bytes[0] % 16);
        assert(pair_value(hi, lo) == bytes[0]) by {
            assert(bytes[0] / 16 * 16 + bytes[0] % 16 == bytes[0]);
        }
        lemma_digit_pair_text(enc, bytes, hi, lo);
    }
}

/// The uppercase hex text of a byte sequence has no separators, carries no
/// prefix marker, and decodes pair by pair to the sequence it encodes.
proof fn lemma_hex_upper_decodes(bytes: Seq<u8>)
    ensures
        hex_upper(bytes).len() == 2 * bytes.len(),
        strip_separators(hex_upper(bytes)) == hex_upper(bytes),
        prefix_pairs(hex_upper(bytes)) == 0,
        decode_pairs(hex_upper(bytes)) == Ok::<Seq<u8>, HexError>(bytes),
    decreases bytes.len(),
{
    let enc = hex_upper(bytes);
    if bytes.len() == 0 {
        assert(enc =~= Seq::<u8>::empty());
        assert(bytes =~= Seq::<u8>::empty());
        assert(strip_separators(enc) =~= Seq::<u8>::empty());
        assert(decode_pairs(enc) == Ok::<Seq<u8>, HexError>(Seq::<u8>::empty()));
    } else {
        lemma_hex_upper_decodes(bytes.skip(1));
        let hi = upper_digit(bytes[0] / 16);
        let lo = upper_digit(bytes[0] % 16);
        assert(enc.skip(2) =~= hex_upper(bytes.skip(1)));
        assert(hex_digit_value(hi) == bytes[0] / 16 && hex_digit_value(lo) == bytes[0] % 16);
        assert(pair_value(hi, lo) == bytes[0]) by {
            assert(bytes[0] / 16 * 16 + bytes[0] % 16 == bytes[0]);
        }
        lemma_digit_pair_text(enc, bytes, hi, lo);
    }
}

/// Law: round trip through lowercase text.  Encoding any byte sequence as
/// separator-free lowercase hex and decoding that text gives back exactly
/// the sequence it started from.
pub proof fn lemma_round_trip_lower(bytes: Seq<u8>)
    ensures
        hex_decode(hex_lower(bytes)) == Ok::<Seq<u8>, HexError>(bytes),
{
    lemma_hex_lower_decodes(bytes);
}

/// Law: round trip through uppercase text.  Encoding any byte sequence as
/// separator-free uppercase hex and decoding that text gives back exactly
/// the sequence it started from.
pub proof fn lemma_round_trip_upper(bytes: Seq<u8>)
    ensures
        hex_decode(hex_upper(bytes)) == Ok::<Seq<u8>, HexError>(bytes),
{
    lemma_hex_upper_decodes(bytes);
}

} // verus!
