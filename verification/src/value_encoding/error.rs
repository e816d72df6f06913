//! What can go wrong when a value is written or read.

use vstd::prelude::*;

verus! {

/// Why a value could not be encoded, or why bytes could not be decoded as the
/// expected type.
#[derive(Clone, Copy, Debug, PartialEq, Eq, Structural)]
pub enum ValueEncodingError {
    /// Fewer bytes remain than the layout of the expected type needs.
    Truncated,
    /// A boolean was expected and the byte is neither `0` nor `1`.
    InvalidBoolEncoding(u8),
    /// The payload of a text value is not UTF-8. `valid_up_to` is the length
    /// of the longest prefix of the payload that is.
    InvalidUtf8 { valid_up_to: usize },
    /// The day number is outside the range of representable dates.
    InvalidNaiveDateEncoding(i32),
    /// The seconds from midnight and nanoseconds do not make a time of day.
    InvalidNaiveTimeEncoding(u32, u32),
    /// The seconds and nanoseconds do not make a representable timestamp.
    InvalidNaiveDateTimeEncoding(i64, u32),
    /// The body of a struct value is not a well-formed message.
    InvalidStructEncoding,
    /// A struct value holds `actual` fields where the schema declares
    /// `expected`.
    FieldCountMismatch { expected: usize, actual: usize },
    /// The codec has no layout for this kind of value.
    UnsupportedType,
    /// A length does not fit the four-byte length prefix.
    LengthOverflow,
}

} // verus!
