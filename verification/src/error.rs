//! The ways in which decoding can fail.

use vstd::prelude::*;

verus! {

/// Why a byte sequence was rejected by a decoder.
///
/// Decoding never yields a partial value: either the whole item is returned
/// or one of these errors is.
#[derive(Clone, Copy, Debug, PartialEq, Eq, Structural)]
pub enum Error {
    /// A declared length exceeds the bytes that remain.
    InputTooShort,
    /// A length prefix could have been written in a shorter form.
    NonCanonicalLength,
    /// The declared fields did not consume the whole payload of their list.
    TrailingBytes,
    /// Bytes remained where an optional field may stand, but they do not
    /// decode as that field.
    MalformedOptionalField,
    /// A declared length, or an integer, does not fit the machine type that
    /// has to hold it.
    Overflow,
    /// An integer was written with a leading zero byte.
    LeadingZero,
    /// A byte string was found where a list is required.
    UnexpectedString,
    /// A list was found where a byte string is required.
    UnexpectedList,
    /// A byte string has another length than the fixed-width value it
    /// should hold.
    UnexpectedLength,
}

impl Error {
    /// A short description of the error.
    pub fn message(&self) -> (s: &'static str)
        ensures
            s@ == Self::message_of(*self)@,
    {
        match self {
            Error::InputTooShort => "input too short",
            Error::NonCanonicalLength => "non-canonical length",
            Error::TrailingBytes => "trailing bytes",
            Error::MalformedOptionalField => "malformed optional field",
            Error::Overflow => "overflow",
            Error::LeadingZero => "leading zero",
            Error::UnexpectedString => "unexpected string",
            Error::UnexpectedList => "unexpected list",
            Error::UnexpectedLength => "unexpected length",
        }
    }

    /// The description that [`Error::message`] returns for `e`.
    pub open spec fn message_of(e: Error) -> &'static str {
        match e {
            Error::InputTooShort => "input too short",
            Error::NonCanonicalLength => "non-canonical length",
            Error::TrailingBytes => "trailing bytes",
            Error::MalformedOptionalField => "malformed optional field",
            Error::Overflow => "overflow",
            Error::LeadingZero => "leading zero",
            Error::UnexpectedString => "unexpected string",
            Error::UnexpectedList => "unexpected list",
            Error::UnexpectedLength => "unexpected length",
        }
    }
}

} // verus!
