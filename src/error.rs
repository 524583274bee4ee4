//! Failure kinds of request handling and the responses they become.
use vstd::prelude::*;

verus! {

/// Why handling a request did not produce content.
#[derive(Clone, Copy, Debug, PartialEq, Eq, Structural)]
pub enum ErrorKind {
    /// The requested path does not exist; a soft failure.
    DoesNotExist,
    /// The resolved path escapes its base directory.
    TraversalAttempt,
    /// A file could not be opened or read.
    IoError,
    /// The backend could not be reached or answered badly.
    ForwardingFailure,
}

/// Status code sent for a failure: 404 for a missing path, 500 otherwise.
pub open spec fn status_of(kind: ErrorKind) -> u16 {
    match kind {
        ErrorKind::DoesNotExist => 404,
        _ => 500,
    }
}

impl ErrorKind {
    /// The HTTP status code that reports this failure to the client.
    pub fn status_code(&self) -> (r: u16)
        ensures
            r == status_of(*self),
    {
        match self {
            ErrorKind::DoesNotExist => 404,
            _ => 500,
        }
    }

    /// The fixed response body for this failure; it never carries paths
    /// or other details of the cause.
    pub fn response_body(&self) -> (r: &'static str)
        ensures
            *self == ErrorKind::DoesNotExist ==> r@ == "Not Found"@,
            *self != ErrorKind::DoesNotExist ==> r@ == "Something went wrong"@,
    {
        match self {
            ErrorKind::DoesNotExist => "Not Found",
            _ => "Something went wrong",
        }
    }
}

} // verus!
