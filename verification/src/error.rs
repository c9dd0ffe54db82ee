//! The errors of this crate.

use vstd::prelude::*;
use crate::audio::ContainerFormat;

verus! {

/// An error of the speech service or of a request made to it.
#[derive(Clone, Debug, PartialEq, Eq)]
#[non_exhaustive]
pub enum AspeakError {
    /// The service closed the connection.
    ConnectionCloseError { code: String, reason: String },
    /// A message of the service that could not be read.
    InvalidWebSocketMessage(String),
    /// There is no text to speak.
    InputError,
    /// An argument that cannot be used, with the reason.
    ArgumentError(String),
    /// Any other failure of the connection.
    GeneralConnectionError(String),
}

/// An option of the command line.
#[derive(Clone, Copy, Debug, PartialEq, Eq, Structural, Hash)]
pub enum Flag {
    NoProfile,
    Profile,
    Endpoint,
    Region,
    Quality,
    ContainerFormat,
    Format,
    Voice,
    Locale,
}

/// Why a set of arguments was turned down. Each variant holds what was
/// given, as it was given.
#[derive(Clone, Debug, PartialEq, Eq)]
pub enum ArgsError {
    /// Two options that exclude each other were both given.
    Conflict { first: Flag, second: Flag },
    /// A pitch in none of the forms that a pitch can take.
    Pitch(String),
    /// A rate in none of the forms that a rate can take.
    Rate(String),
    /// A style degree that is no number.
    NotANumber(String),
    /// A style degree that is a number outside the range from 0.01 to 2.
    StyleDegreeRange(String),
    /// A header without `=`.
    HeaderSyntax(String),
    /// A header whose name is not a valid header name.
    HeaderName { name: String, value: String },
    /// A header whose value is not a valid header value.
    HeaderValue { name: String, value: String },
    /// A quality level that the container does not have.
    Quality { container: ContainerFormat, quality: i32 },
    /// A quality level without a container to look it up in.
    QualityWithoutContainer(i32),
}

} // verus!
