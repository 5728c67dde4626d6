//! The ways in which reading or decoding a request can fail.

use vstd::prelude::*;

verus! {

/// Why a request could not be framed or decoded.
#[derive(Clone, Copy, Debug, PartialEq, Eq, Structural)]
pub enum ErrorKind {
    /// Reading from the connection failed.
    TransportError,
    /// The head or the body is not UTF-8.
    InvalidEncoding,
    /// The stream ended before the head was complete, or before the body
    /// had the announced length.
    TruncatedStream,
    /// A segment of a form body holds no `=`.
    MalformedForm,
    /// A segment of a cookie header holds no `=`.
    MalformedCookie,
}

} // verus!
