//! The error taxonomy shared by the conversion functions.

use vstd::prelude::*;

verus! {

/// Why a conversion was rejected.
///
/// `InvalidInteger` is returned by the decimal parser when its input is not
/// the text of an unsigned 64-bit integer. `InvalidCharacter` is returned by
/// the Base58 decoder when a character is outside the alphabet. `Overflow` is
/// returned by the Base58 decoder when the value read so far no longer fits
/// in a `u64`.
#[derive(Clone, Copy, Debug, PartialEq, Eq, Structural)]
pub enum ConvertError {
    InvalidInteger,
    InvalidCharacter,
    Overflow,
}

impl ConvertError {
    /// A human-readable description of the error, one fixed line per variant.
    pub fn message(&self) -> (r: &'static str)
        ensures
            *self == ConvertError::InvalidInteger ==> r@ == "Input is not a valid integer"@,
            *self == ConvertError::InvalidCharacter ==> r@ == "Invalid Base58 character"@,
            *self == ConvertError::Overflow ==> r@ == "Value exceeds the supported integer range"@,
    {
        match self {
            ConvertError::InvalidInteger => "Input is not a valid integer",
            ConvertError::InvalidCharacter => "Invalid Base58 character",
            ConvertError::Overflow => "Value exceeds the supported integer range",
        }
    }
}

} // verus!
