//! Failures of the broker as a whole.
use crate::domain::error::Error;
use vstd::prelude::*;

verus! {

/// Why a byte sequence could not be decoded.
#[derive(Debug, Clone, Copy, PartialEq, Eq, Structural)]
pub enum Malformed {
    /// Fewer bytes were supplied than the length prefix of a frame announces.
    IncompleteFrame,
    /// The input ended before a fixed-width field or a body of announced
    /// length was complete.
    BufferExhausted,
    /// A varint ended the input without a terminator, or set the
    /// continuation bit on its tenth byte.
    MalformedVarint,
    /// A string body is not valid UTF-8.
    InvalidUtf8,
    /// A string that must be present was encoded as null.
    NullString,
    /// A length prefix is negative, or a length does not fit in memory.
    InvalidLength,
    /// A metadata record value does not start with frame version 1.
    InvalidFrameVersion,
    /// A metadata record of a known type has a version that is not understood.
    UnsupportedRecordVersion,
    /// A metadata record carries tagged fields, which are not understood.
    UnexpectedTaggedFields,
}

/// Why a request that decoded cleanly is still not acceptable.
#[derive(Debug, Clone, Copy, PartialEq, Eq, Structural)]
pub enum Violation {
    /// The API key names none of the APIs that this broker decodes.
    UnknownApiKey,
    /// The payload does not belong to the API that the header names.
    PayloadMismatch,
    /// The response is too long for the 32-bit length of its frame.
    FrameTooLarge,
}

/// Every failure that the broker reports.
#[derive(Debug, Clone, PartialEq)]
pub enum ApplicationError {
    /// A failure of the framing layer.
    Domain(Error),
    /// Reading or writing failed; the text is the system's own description.
    Io(String),
    /// The bytes of a request or of the metadata log do not decode.
    MalformedRequest(Malformed),
    /// The request decoded but is semantically invalid.
    Protocol(Violation),
}

/// The error that reports a decoding failure.
pub open spec fn malformed(reason: Malformed) -> ApplicationError {
    ApplicationError::MalformedRequest(reason)
}

} // verus!
