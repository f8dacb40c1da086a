//! The kinds of failure that the core tells its callers about.

use vstd::prelude::*;

verus! {

/// What went wrong with an operation of an endpoint. None of them stops the
/// endpoint: each is reported and the endpoint carries on.
#[derive(Clone, Copy, Debug, PartialEq, Eq, Hash, Structural)]
pub enum ErrorKind {
    /// A submessage was malformed (a range that cannot be) and was dropped.
    ProtocolViolation,
    /// A cache that keeps all history is full, and the write was refused.
    ResourceExhausted,
    /// A submessage named a peer that is not matched, and was dropped.
    UnknownPeer,
}

} // verus!
