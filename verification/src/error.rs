//! The failures that the server reports to its caller.

use vstd::prelude::*;

verus! {

/// What went wrong, as far as the caller can tell the cases apart.
#[derive(Clone, Copy, Debug, PartialEq, Eq, Structural)]
pub enum ErrorKind {
    /// An argument cannot be used: a port that is not a number.
    InvalidInput,
    /// A backing resource does not exist.
    NotFound,
    /// A backing resource may not be read.
    PermissionDenied,
    /// Any other failure; the message says more.
    Other,
}

/// A failure with its kind and a message for the operator.
#[derive(Clone, Debug, PartialEq, Eq)]
pub struct ServerError {
    pub kind: ErrorKind,
    pub message: String,
}

/// A failure of kind `Other` that carries `err` as its message.
pub fn error(err: String) -> (failure: ServerError)
    ensures
        failure.kind == ErrorKind::Other,
        failure.message == err,
{
    ServerError { kind: ErrorKind::Other, message: err }
}

} // verus!
