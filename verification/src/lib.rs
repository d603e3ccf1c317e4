//! Decoder for textual hexadecimal data.
//!
//! The input may carry an optional `0x`/`0X` prefix and any mixture of the
//! accepted separator bytes (space, double quote, underscore, pipe, dash,
//! newline) between digits.  A first pass counts the bytes that are excluded
//! from pairing, a parity check rejects an odd number of significant digits,
//! and a second pass pairs the remaining digit bytes into output bytes.
//! Every step is specified against a small mathematical model and verified.

pub mod chars;
pub mod decode;
pub mod encode;
pub mod guard;
pub mod laws;
pub mod model;

pub use chars::is_valid_delimiter;
pub use chars::to_ordinal;
pub use decode::convert;
pub use decode::count_skipped;
pub use decode::decode_hex;
pub use encode::encode_hex;
pub use guard::HexStringLength;
pub use guard::IsEvenNumberofDigits;
pub use guard::IsOddNumberofDigits;
pub use guard::LengthIsEvenNumberOfHexDigits;
pub use model::HexError;
