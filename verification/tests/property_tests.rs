use hexlit::convert;
use hexlit::count_skipped;
use hexlit::decode_hex;
use hexlit::encode_hex;
use hexlit::is_valid_delimiter;
use hexlit::to_ordinal;
use hexlit::HexError;
use hexlit::HexStringLength;
use hexlit::LengthIsEvenNumberOfHexDigits;

#[test]
fn repeated_calls_agree() {
    let first = decode_hex(b"0xDE AD-be_ef");
    let second = decode_hex(b"0xDE AD-be_ef");
    assert_eq!(first, second);
    assert_eq!(first.unwrap(), vec![0xDE, 0xAD, 0xBE, 0xEF]);
}

#[test]
fn round_trip_lowercase() {
    let data: Vec<u8> = vec![0x00, 0x01, 0x7F, 0x80, 0xDE, 0xAD, 0xFF];
    let text = encode_hex(&data);
    assert_eq!(text, b"00017f80deadff".to_vec());
    assert_eq!(decode_hex(&text).unwrap(), data);
}

#[test]
fn round_trip_empty() {
    let data: Vec<u8> = vec![];
    let text = encode_hex(&data);
    assert_eq!(text, Vec::<u8>::new());
    assert_eq!(decode_hex(&text).unwrap(), data);
}

#[test]
fn round_trip_uppercase_text() {
    assert_eq!(decode_hex(b"DEADBEEF").unwrap(), vec![0xDE, 0xAD, 0xBE, 0xEF]);
}

#[test]
fn case_insensitive() {
    assert_eq!(decode_hex(b"a1b2").unwrap(), vec![0xA1, 0xB2]);
    assert_eq!(decode_hex(b"A1B2").unwrap(), vec![0xA1, 0xB2]);
    assert_eq!(decode_hex(b"a1b2"), decode_hex(b"A1B2"));
}

#[test]
fn separator_invariant() {
    let bare = decode_hex(b"01020304");
    assert_eq!(bare, decode_hex(b"01 02 03 04"));
    assert_eq!(bare, decode_hex(b"01_02|03-04"));
    assert_eq!(bare, decode_hex(b"\"01\"\n\"02\"\n\"03\"\n\"04\""));
    assert_eq!(bare.unwrap(), vec![1, 2, 3, 4]);
}

#[test]
fn separators_at_the_edges() {
    assert_eq!(decode_hex(b" 01").unwrap(), vec![1]);
    assert_eq!(decode_hex(b"01 ").unwrap(), vec![1]);
    assert_eq!(decode_hex(b" - _ ").unwrap(), Vec::<u8>::new());
}

#[test]
fn prefix_ignored() {
    assert_eq!(decode_hex(b"0xDEADBEEF"), decode_hex(b"DEADBEEF"));
    assert_eq!(decode_hex(b"0xDEADBEEF").unwrap(), vec![0xDE, 0xAD, 0xBE, 0xEF]);
}

#[test]
fn prefix_uppercase_x() {
    assert_eq!(decode_hex(b"0XAB").unwrap(), vec![0xAB]);
}

#[test]
fn prefix_alone_is_empty() {
    assert_eq!(decode_hex(b"0x").unwrap(), Vec::<u8>::new());
}

#[test]
fn prefix_at_inner_pair_boundary() {
    assert_eq!(decode_hex(b"000x12").unwrap(), vec![0x00, 0x12]);
    assert_eq!(decode_hex(b"AB 0x CD").unwrap(), vec![0xAB, 0xCD]);
}

#[test]
fn empty_input_decodes_to_nothing() {
    assert_eq!(decode_hex(b"").unwrap(), Vec::<u8>::new());
}

#[test]
fn odd_digit_count_rejected() {
    assert_eq!(decode_hex(b"abc"), Err(HexError::OddDigitCount));
    assert_eq!(decode_hex(b"a"), Err(HexError::OddDigitCount));
    assert_eq!(decode_hex(b"0x1"), Err(HexError::OddDigitCount));
}

#[test]
fn invalid_digit_rejected() {
    assert_eq!(decode_hex(b"zz"), Err(HexError::InvalidDigit(b'z')));
    assert_eq!(decode_hex(b"z z"), Err(HexError::InvalidDigit(b'z')));
}

#[test]
fn first_invalid_byte_reported() {
    assert_eq!(decode_hex(b"a1g2"), Err(HexError::InvalidDigit(b'g')));
    assert_eq!(decode_hex(b"1x"), Err(HexError::InvalidDigit(b'x')));
}

#[test]
fn parity_checked_before_digits() {
    assert_eq!(decode_hex(b"zzz"), Err(HexError::OddDigitCount));
}

#[test]
fn count_skipped_counts_separators_and_prefix() {
    assert_eq!(count_skipped(b""), 0);
    assert_eq!(count_skipped(b"01020304"), 0);
    assert_eq!(count_skipped(b"01 02 03 04"), 3);
    assert_eq!(count_skipped(b"0xDEADBEEF"), 2);
    assert_eq!(count_skipped(b"0A_0B|0C"), 2);
    assert_eq!(count_skipped(b"abc"), 0);
}

#[test]
fn convert_pairs_digits() {
    assert_eq!(convert(b"a1 b2").unwrap(), vec![0xA1, 0xB2]);
    assert_eq!(convert(b"0x12").unwrap(), vec![0x12]);
}

#[test]
fn delimiter_set_members() {
    assert!(is_valid_delimiter(b' '));
    assert!(is_valid_delimiter(b'"'));
    assert!(is_valid_delimiter(b'_'));
    assert!(is_valid_delimiter(b'|'));
    assert!(is_valid_delimiter(b'-'));
    assert!(is_valid_delimiter(b'\n'));
    assert!(!is_valid_delimiter(b'0'));
    assert!(!is_valid_delimiter(b'x'));
    assert!(!is_valid_delimiter(b'\t'));
}

#[test]
fn to_ordinal_values() {
    assert_eq!(to_ordinal(b'0'), 0);
    assert_eq!(to_ordinal(b'9'), 9);
    assert_eq!(to_ordinal(b'A'), 10);
    assert_eq!(to_ordinal(b'F'), 15);
    assert_eq!(to_ordinal(b'a'), 10);
    assert_eq!(to_ordinal(b'f'), 15);
}

#[test]
fn encode_hex_values() {
    assert_eq!(encode_hex(&[0xDE, 0xAD]), b"dead".to_vec());
    assert_eq!(encode_hex(&[0x00, 0x0F]), b"000f".to_vec());
}

#[test]
fn even_guard_is_realizable() {
    let _check: <<[(); 0] as HexStringLength>::Marker as LengthIsEvenNumberOfHexDigits>::Check =
        ();
}
