//! The errors that parsing reports.
use vstd::prelude::*;

verus! {

/// Why a text is not a well-formed version.
#[derive(Clone, Copy, Debug, PartialEq, Eq, Structural)]
pub enum ParseError {
    /// A numeric component does not start with a digit, or has a leading zero.
    InvalidComponent,
    /// A component is missing, or the components are not separated by `.`.
    InvalidFormat,
    /// A component does not fit the target integer type.
    ComponentOverflow,
    /// Text follows a complete `MAJOR.MINOR.PATCH`.
    TrailingInput,
    /// The suffix after the separator is empty or malformed.
    InvalidSuffix,
}

/// The errors of parsing a plain `MAJOR.MINOR.PATCH` version.
pub type SemVerParseError = ParseError;

/// Why a text is not a well-formed, possibly suffixed, version.
#[derive(Clone, Copy, Debug, PartialEq, Eq, Structural)]
pub enum VersionParseError {
    /// The leading `MAJOR.MINOR.PATCH` is malformed.
    SemVer(SemVerParseError),
    /// The text after the version does not start with `-` or `+`.
    InvalidFormat,
    /// The suffix is empty, holds white space, or starts with another separator.
    InvalidSuffix,
}

#[verifier::external_type_specification]
#[verifier::external_body]
pub struct ExIoError(std::io::Error);

/// The crate-wide error: a parse error or an I/O error.
#[derive(Debug)]
pub enum Error {
    ParseError(ParseError),
    IOError(std::io::Error),
}

impl From<ParseError> for Error {
    fn from(err: ParseError) -> (r: Self) {
        Error::ParseError(err)
    }
}

impl vstd::std_specs::convert::FromSpecImpl<ParseError> for Error {
    open spec fn obeys_from_spec() -> bool {
        true
    }

    open spec fn from_spec(v: ParseError) -> Self {
        Error::ParseError(v)
    }
}

} // verus!
