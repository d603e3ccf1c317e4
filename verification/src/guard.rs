//! A type-level parity guard over a digit count already known at compile
//! time.
//!
//! `HexStringLength` maps the remainder of the digit count by two, written
//! as the array type `[(); count % 2]`, to a marker type; only the even
//! marker has an impl of `LengthIsEvenNumberOfHexDigits`, so naming
//! `<Marker as LengthIsEvenNumberOfHexDigits>::Check` for an odd count
//! fails to compile and no artifact is produced.
//! The run-time counterpart of this guard is the parity test in
//! `decode_hex`, which rejects an odd count before any pair is decoded.

use vstd::prelude::*;

verus! {

/// Marker: the digit count leaves remainder zero by two.
pub enum IsEvenNumberofDigits {
    Marker,
}

/// Marker: the digit count leaves remainder one by two.
pub enum IsOddNumberofDigits {
    Marker,
}

/// Selects a parity marker from `[(); count % 2]`.
pub trait HexStringLength {
    type Marker;
}

impl HexStringLength for [(); 0] {
    type Marker = IsEvenNumberofDigits;
}

impl HexStringLength for [(); 1] {
    type Marker = IsOddNumberofDigits;
}

/// Realizable only for the even marker.
pub trait LengthIsEvenNumberOfHexDigits {
    type Check;
}

impl LengthIsEvenNumberOfHexDigits for IsEvenNumberofDigits {
    type Check = ();
}

} // verus!
