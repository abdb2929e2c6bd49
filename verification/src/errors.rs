//! The conditions under which a path is refused.

use vstd::prelude::*;
use vstd::string::*;
use crate::ascii::as_chars;
use crate::decimal::{append_decimal, decimal_text};

verus! {

/// Why a value, a text or a buffer was refused.
#[derive(Debug, Clone, Copy, PartialEq, Eq, Hash, Structural)]
pub enum Error {
    /// A magnitude reaches into the bit that marks hardened segments.
    HighBitIsSet,
    /// A path has a number of segments that its target does not admit; the
    /// number found is carried along.
    InvalidLength(usize),
    /// A value cannot stand as the purpose of a path.
    InvalidPurpose(u32),
    /// The number of segments fits, but a segment is hardened where it must
    /// not be (or the reverse), or a text gives the root and no segment.
    InvalidStructure,
    /// A text does not follow the grammar, or a buffer not the layout.
    InvalidFormat,
}

impl Error {
    /// The condition in words, with the number it carries, if any, in
    /// decimal.
    pub open spec fn message(self) -> Seq<char> {
        match self {
            Error::HighBitIsSet => "High bit is set"@,
            Error::InvalidLength(len) => "Invalid length: "@ + as_chars(decimal_text(len as nat)),
            Error::InvalidPurpose(purpose) => "Invalid purpose: "@ + as_chars(
                decimal_text(purpose as nat),
            ),
            Error::InvalidStructure => "Invalid structure"@,
            Error::InvalidFormat => "Invalid format"@,
        }
    }

    /// The condition in words.
    pub fn to_string(&self) -> (s: String)
        ensures
            s@ == self.message(),
    {
        match self {
            Error::HighBitIsSet => String::from_str("High bit is set"),
            Error::InvalidLength(len) => {
                let mut s = String::from_str("Invalid length: ");
                append_decimal(&mut s, *len as u64);
                s
            },
            Error::InvalidPurpose(purpose) => {
                let mut s = String::from_str("Invalid purpose: ");
                append_decimal(&mut s, *purpose as u64);
                s
            },
            Error::InvalidStructure => String::from_str("Invalid structure"),
            Error::InvalidFormat => String::from_str("Invalid format"),
        }
    }
}

} // verus!
