//! Error types shared by the table parsers and writers.

use vstd::prelude::*;

verus! {

/// Errors that originate when parsing binary font data.
#[derive(Clone, Copy, Debug, PartialEq, Eq, Structural)]
pub enum ParseError {
    /// A read would cross the end of its slice.
    BadEof,
    /// A value is outside of the range that the format allows.
    BadValue,
    /// A version field holds an unsupported value.
    BadVersion,
    /// An offset points outside of the data.
    BadOffset,
    /// An index is out of range.
    BadIndex,
    /// A counter exceeded what the implementation can hold.
    LimitExceeded,
    /// A required value is absent.
    MissingValue,
}

/// Errors that originate when writing binary font data.
#[derive(Clone, Copy, Debug, PartialEq, Eq, Structural)]
pub enum WriteError {
    /// A value can not be represented in the target format.
    BadValue,
    /// The output does not support the requested operation.
    NotImplemented,
}

/// Errors that originate when shaping text.
#[derive(Clone, Copy, Debug, PartialEq, Eq, Structural)]
pub enum ShapingError {
    /// A table of the font could not be read.
    ParseError(ParseError),
}

impl From<ParseError> for ShapingError {
    fn from(error: ParseError) -> (r: ShapingError) {
        ShapingError::ParseError(error)
    }
}

impl vstd::std_specs::convert::FromSpecImpl<ParseError> for ShapingError {
    open spec fn obeys_from_spec() -> bool {
        true
    }

    open spec fn from_spec(error: ParseError) -> ShapingError {
        ShapingError::ParseError(error)
    }
}

impl ParseError {
    /// A description of the error.
    pub open spec fn spec_message(&self) -> Seq<char> {
        match self {
            ParseError::BadEof => "end of data reached unexpectedly"@,
            ParseError::BadValue => "invalid value"@,
            ParseError::BadVersion => "unexpected data version"@,
            ParseError::BadOffset => "invalid data offset"@,
            ParseError::BadIndex => "invalid data index"@,
            ParseError::LimitExceeded => "limit exceeded"@,
            ParseError::MissingValue => "an expected data value was missing"@,
        }
    }

    /// A description of the error.
    pub fn message(&self) -> (s: &'static str)
        ensures
            s@ == self.spec_message(),
    {
        match self {
            ParseError::BadEof => "end of data reached unexpectedly",
            ParseError::BadValue => "invalid value",
            ParseError::BadVersion => "unexpected data version",
            ParseError::BadOffset => "invalid data offset",
            ParseError::BadIndex => "invalid data index",
            ParseError::LimitExceeded => "limit exceeded",
            ParseError::MissingValue => "an expected data value was missing",
        }
    }
}

} // verus!
