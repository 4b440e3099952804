//! The error type shared by every fallible operation of the crate.

use vstd::prelude::*;

verus! {

/// Everything that can go wrong while building a query, fetching a response,
/// or decoding it.
#[derive(Clone, Copy, PartialEq, Eq, Structural, Debug)]
pub enum Error {
    /// A (year, month, day) triple does not name a real calendar date.
    InvalidDate,
    /// The base endpoint could not be parsed into a URL.
    UrlConstructionError,
    /// The transport failed before an HTTP status was available.
    RequestFailed,
    /// The body of a successful response could not be read.
    BodyReadError,
    /// The server answered with a status other than 200; carries that status.
    InvalidResponse(u16),
    /// The response body was not the expected JSON shape.
    DeserializationError,
    /// A content value was unwrapped as the wrong variant.
    ConversionError,
    /// The local calendar date could not be determined.
    ClockError,
}

/// The description `message` returns for each error.
pub open spec fn message_spec(e: Error) -> Seq<char> {
    match e {
        Error::InvalidDate => "invalid calendar date"@,
        Error::UrlConstructionError => "URL construction failed"@,
        Error::RequestFailed => "fetching articles failed"@,
        Error::BodyReadError => "failed to read response body"@,
        Error::InvalidResponse(_) => "invalid response status"@,
        Error::DeserializationError => "failed to decode response"@,
        Error::ConversionError => "tried to extract the wrong content variant"@,
        Error::ClockError => "unable to determine the current date"@,
    }
}

impl Error {
    /// A short human-readable description of the error.
    pub fn message(&self) -> (r: &'static str)
        ensures
            r@ == message_spec(*self),
    {
        match self {
            Error::InvalidDate => "invalid calendar date",
            Error::UrlConstructionError => "URL construction failed",
            Error::RequestFailed => "fetching articles failed",
            Error::BodyReadError => "failed to read response body",
            Error::InvalidResponse(_) => "invalid response status",
            Error::DeserializationError => "failed to decode response",
            Error::ConversionError => "tried to extract the wrong content variant",
            Error::ClockError => "unable to determine the current date",
        }
    }
}

} // verus!
