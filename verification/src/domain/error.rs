//! Failures of the raw framing layer.
use vstd::prelude::*;

verus! {

/// What can go wrong below the level of a decoded request.
#[derive(Debug, Clone, PartialEq)]
pub enum Error {
    /// The transport failed; the text is the transport's own description.
    Io(String),
    /// The peer broke the protocol; the text says how.
    Protocol(String),
    /// The request is too short to hold the fixed header.
    InvalidRequest,
}

} // verus!
