//! The two passes over the input: the skip count and the pair decoder.

use vstd::prelude::*;

use crate::chars::is_hex_digit;
use crate::chars::is_hex_digit_byte;
use crate::chars::is_valid_delimiter;
use crate::chars::to_ordinal;
use crate::chars::DIGIT_ZERO;
use crate::chars::LOWER_X;
use crate::chars::UPPER_X;
use crate::model::decode_pairs;
use crate::model::hex_decode;
use crate::model::is_prefix_pair;
use crate::model::lemma_decode_pairs_len;
use crate::model::lemma_prefix_pairs_bound;
use crate::model::pair_value;
use crate::model::prefix_pairs;
use crate::model::significant_digits;
use crate::model::skipped_bytes;
use crate::model::strip_separators;
use crate::model::HexError;

verus! {

/// First pass: counts the bytes excluded from pairing, that is every
/// separator plus the two bytes of each `0x`/`0X` marker.  Total over any
/// byte sequence; performs no decoding.
pub fn count_skipped(data: &[u8]) -> (r: usize)
    ensures
        r <= data@.len(),
        r as int == skipped_bytes(data@),
{
    let ghost s = data@;
    let mut count: usize = 0;
    let mut i: usize = 0;
    proof {
        assert(s.skip(0) =~= s);
    }
    while i < data.len()
        invariant
            s == data@,
            i <= data.len(),
            count <= i,
            count + skipped_bytes(s.skip(i as int)) == skipped_bytes(s),
        decreases data.len() - i,
    {
        let c = data[i];
        proof {
            assert(s.skip(i as int)[0] == c);
            assert(s.skip(i as int).skip(1) =~= s.skip(i as int + 1));
        }
        if is_valid_delimiter(c) {
            count = count + 1;
            i = i + 1;
        } else {
            let ghost count0 = count as int;
            let mut j: usize = i + 1;
            while j < data.len() && is_valid_delimiter(data[j])
                invariant
                    s == data@,
                    i < j <= data.len(),
                    count == count0 + j - i - 1,
                    count0 <= i < data.len(),
                    count0 + skipped_bytes(s.skip(i as int)) == skipped_bytes(s),
                    strip_separators(s.skip(i as int)) == seq![s[i as int]]
                        + strip_separators(s.skip(j as int)),
                decreases data.len() - j,
            {
                proof {
                    assert(s.skip(j as int)[0] == s[j as int]);
                    assert(s.skip(j as int).skip(1) =~= s.skip(j as int + 1));
                }
                count = count + 1;
                j = j + 1;
            }
            if j < data.len() {
                let c2 = data[j];
                proof {
                    assert(s.skip(j as int)[0] == c2);
                    assert(s.skip(j as int).skip(1) =~= s.skip(j as int + 1));
                    let rem = strip_separators(s.skip(i as int));
                    let rest = strip_separators(s.skip(j as int + 1));
                    assert(rem =~= seq![c, c2] + rest);
                    assert(rem.skip(2) =~= rest);
                }
                if c == DIGIT_ZERO && (c2 == LOWER_X || c2 == UPPER_X) {
                    count = count + 2;
                }
                i = j + 1;
            } else {
                proof {
                    assert(s.skip(j as int) =~= Seq::<u8>::empty());
                    let rem = strip_separators(s.skip(i as int));
                    assert(rem =~= seq![c]);
                    assert(prefix_pairs(rem) == 0);
                }
                i = j;
            }
        }
    }
    proof {
        assert(s.skip(i as int) =~= Seq::<u8>::empty());
        assert(strip_separators(s.skip(i as int)) =~= Seq::<u8>::empty());
    }
    count
}

/// Second pass, the decoder: pairs consecutive significant digit bytes into
/// output bytes, skipping the separators between them and any `0x`/`0X`
/// marker standing where a pair would.  The parity guard has run before it,
/// so the count of significant digits is even; the first byte that is no
/// hex digit is the reported failure.
pub fn convert(input: &[u8]) -> (r: Result<Vec<u8>, HexError>)
    requires
        significant_digits(input@) % 2 == 0,
    ensures
        (match decode_pairs(strip_separators(input@)) {
            Ok(bytes) => r matches Ok(v) && v@ == bytes,
            Err(e) => r matches Err(e2) && e2 == e,
        }),
{
    let ghost s = input@;
    let ghost d = strip_separators(s);
    proof {
        lemma_prefix_pairs_bound(d);
        assert(d.len() == significant_digits(s) + 2 * prefix_pairs(d));
        assert(s.skip(0) =~= s);
    }
    let mut out: Vec<u8> = Vec::new();
    let mut i: usize = 0;
    while i < input.len()
        invariant
            s == input@,
            d == strip_separators(s),
            i <= input.len(),
            strip_separators(s.skip(i as int)).len() % 2 == 0,
            (match decode_pairs(strip_separators(s.skip(i as int))) {
                Ok(rest) => decode_pairs(d) == Ok::<Seq<u8>, HexError>(out@ + rest),
                Err(e) => decode_pairs(d) == Err::<Seq<u8>, HexError>(e),
            }),
        decreases input.len() - i,
    {
        let c = input[i];
        proof {
            assert(s.skip(i as int)[0] == c);
            assert(s.skip(i as int).skip(1) =~= s.skip(i as int + 1));
        }
        if is_valid_delimiter(c) {
            i = i + 1;
        } else {
            let mut j: usize = i + 1;
            while j < input.len() && is_valid_delimiter(input[j])
                invariant
                    s == input@,
                    i < j <= input.len(),
                    strip_separators(s.skip(i as int)) == seq![s[i as int]]
                        + strip_separators(s.skip(j as int)),
                decreases input.len() - j,
            {
                proof {
                    assert(s.skip(j as int)[0] == s[j as int]);
                    assert(s.skip(j as int).skip(1) =~= s.skip(j as int + 1));
                }
                j = j + 1;
            }
            if j >= input.len() {
                proof {
                    assert(s.skip(j as int) =~= Seq::<u8>::empty());
                    assert(strip_separators(s.skip(i as int)) =~= seq![c]);
                    assert(false);
                }
                return Err(HexError::OddDigitCount);
            }
            let c2 = input[j];
            proof {
                assert(s.skip(j as int)[0] == c2);
                assert(s.skip(j as int).skip(1) =~= s.skip(j as int + 1));
                let rem = strip_separators(s.skip(i as int));
                let rest = strip_separators(s.skip(j as int + 1));
                assert(rem =~= seq![c, c2] + rest);
                assert(rem.skip(2) =~= rest);
            }
            if c == DIGIT_ZERO && (c2 == LOWER_X || c2 == UPPER_X) {
                i = j + 1;
            } else if !is_hex_digit_byte(c) {
                return Err(HexError::InvalidDigit(c));
            } else if !is_hex_digit_byte(c2) {
                return Err(HexError::InvalidDigit(c2));
            } else {
                let b = to_ordinal(c) * 16 + to_ordinal(c2);
                let ghost out0 = out@;
                out.push(b);
                proof {
                    let rem = strip_separators(s.skip(i as int));
                    let rest = strip_separators(s.skip(j as int + 1));
                    assert(!is_prefix_pair(rem[0], rem[1]));
                    assert(b == pair_value(rem[0], rem[1]));
                    assert(out@ =~= out0 + seq![b]);
                    match decode_pairs(rest) {
                        Ok(r2) => {
                            assert(decode_pairs(rem) == Ok::<Seq<u8>, HexError>(seq![b] + r2));
                            assert((out0 + seq![b]) + r2 =~= out0 + (seq![b] + r2));
                        },
                        Err(_) => {},
                    }
                }
                i = j + 1;
            }
        }
    }
    proof {
        assert(s.skip(i as int) =~= Seq::<u8>::empty());
        assert(strip_separators(s.skip(i as int)) =~= Seq::<u8>::empty());
        assert(out@ + Seq::<u8>::empty() =~= out@);
    }
    Ok(out)
}

/// Decodes a textual hex input: separators may stand anywhere between the
/// digits, and a `0x`/`0X` marker standing where a digit pair would is
/// skipped.  Succeeds exactly on the inputs whose significant digit count
/// is even and whose paired bytes are all hex digits; the result then holds
/// one byte for each digit pair.  An odd count is rejected before any pair
/// is decoded; otherwise the first byte that is no hex digit is reported.
pub fn decode_hex(input: &[u8]) -> (r: Result<Vec<u8>, HexError>)
    ensures
        (match hex_decode(input@) {
            Ok(bytes) => r matches Ok(v) && v@ == bytes,
            Err(e) => r matches Err(e2) && e2 == e,
        }),
        r matches Ok(v) ==> 2 * v@.len() == significant_digits(input@),
{
    let skipped = count_skipped(input);
    let significant = input.len() - skipped;
    if significant % 2 != 0 {
        return Err(HexError::OddDigitCount);
    }
    proof {
        let d = strip_separators(input@);
        lemma_prefix_pairs_bound(d);
        assert(d.len() == significant_digits(input@) + 2 * prefix_pairs(d));
        if decode_pairs(d) is Ok {
            lemma_decode_pairs_len(d);
        }
    }
    convert(input)
}

} // verus!
