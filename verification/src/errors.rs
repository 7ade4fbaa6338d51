//! The error codes of the core, mirroring the transport's status codes.

use vstd::prelude::*;

verus! {

/// The verdicts an operation can refuse with.
#[derive(Clone, Copy, Debug, PartialEq, Eq, Structural)]
pub enum AuthError {
    /// The referenced user or pending challenge does not exist.
    NotFound,
    /// An out-of-range value, a zero bound, or an empty user name.
    InvalidArgument,
    /// The verification equation failed.
    PermissionDenied,
    /// The random generator could not produce a fresh token.
    Internal,
}

} // verus!
