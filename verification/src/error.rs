use vstd::prelude::*;

verus! {

/// Failures of the codec: malformed input (a request line with missing
/// tokens, an unrecognized method, a header block that is not valid UTF-8 or
/// is never terminated) and capacity overruns (a seventeenth header, a
/// message larger than its output buffer).
///
/// Every failure is returned as a value; no codec operation panics.
#[derive(Clone, Copy, Debug, PartialEq, Eq, Structural)]
pub enum HttpError {
    /// The header block holds no line to read a request line from.
    MissingRequestLine,
    /// The request line holds no token at all.
    MissingMethod,
    /// The request line holds a method token but no path token.
    MissingPath,
    /// The request line holds method and path tokens but no version token.
    MissingVersion,
    /// The method token matches none of the nine standard verbs.
    UnknownMethod,
    /// A header could not be inserted: the collection is at capacity.
    TooManyHeaders,
    /// The buffer holds no header/body boundary; more bytes are needed.
    IncompleteHeaders,
    /// The bytes before the header/body boundary are not valid UTF-8.
    InvalidEncoding,
    /// The header block holds no line to read a status line from.
    MissingStatusLine,
    /// The status line holds no token after the version token.
    MissingStatusCode,
    /// The status-code token is not a decimal number a status can carry.
    InvalidStatusLine,
    /// The rendered message does not fit the output buffer.
    BufferOverflow,
    /// A response kept growing past the fixed read buffer.
    ResponseTooLarge,
    /// A read or write was cancelled by its timeout.
    Timeout,
    /// The transport reported a failure.
    TransportError,
}

} // verus!
