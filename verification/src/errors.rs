//! Error taxonomy of the relay core.
//!
//! Every failure a core operation can report is one of these kinds; no
//! lower-level error crosses the boundary to callers.

use vstd::prelude::*;

verus! {

/// The kind of a failure, as callers dispatch on it.
#[derive(Clone, Copy, Debug, PartialEq, Eq, Structural)]
pub enum ErrorKind {
    /// Malformed input: bad domain, bad address, empty recipient list.
    Validation,
    /// The domain is already registered.
    Conflict,
    /// The named domain does not exist.
    NotFound,
    /// Missing or unknown bearer token.
    Auth,
    /// The token does not authorize the sender's domain.
    Forbidden,
    /// The mail relay was unreachable or rejected the message.
    Transport,
    /// The backing store refused a write.
    Persistence,
}

/// A structured failure: a kind plus a diagnostic message.
#[derive(Debug)]
pub struct ApiError {
    pub kind: ErrorKind,
    pub message: String,
}

impl ApiError {
    /// Builds an error of the given kind carrying `message`.
    pub fn new(kind: ErrorKind, message: String) -> (r: ApiError)
        ensures
            r.kind == kind,
            r.message@ == message@,
    {
        ApiError { kind, message }
    }
}

} // verus!
