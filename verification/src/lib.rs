//! Base58 conversion for unsigned 64-bit integers.
//!
//! The crate converts a `u64` to its Base58 textual form and back, using the
//! 58-symbol alphabet that leaves out the visually ambiguous characters
//! `0`, `O`, `I` and `l`. A small verified decimal parser is included so that
//! a caller reading integers as text can validate them with the same error
//! taxonomy.

pub mod alphabet;
pub mod codec;
pub mod decimal;
pub mod error;
pub mod numeral;
