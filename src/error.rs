//! Error kinds and their one mapping to transport status codes.
use vstd::prelude::*;

verus! {

/// The kinds of failure that operations report.
#[derive(Clone, Copy, Debug, PartialEq, Eq, Structural)]
pub enum ErrorKind {
    /// No, an expired, or an unresolvable session.
    Unauthenticated,
    /// The login token could not be verified.
    InvalidCredentials,
    /// The database or the file store failed.
    StorageError,
    /// The entity does not exist or is not the caller's.
    NotFound,
}

/// The status code of each kind of failure. A bad login token is reported
/// as a server error.
pub open spec fn status_for(kind: ErrorKind) -> u16 {
    match kind {
        ErrorKind::Unauthenticated => 401,
        ErrorKind::InvalidCredentials => 500,
        ErrorKind::StorageError => 500,
        ErrorKind::NotFound => 404,
    }
}

impl ErrorKind {
    /// The status code that a failure of this kind is reported with.
    pub fn status_code(self) -> (r: u16)
        ensures
            r == status_for(self),
    {
        match self {
            ErrorKind::Unauthenticated => 401,
            ErrorKind::InvalidCredentials => 500,
            ErrorKind::StorageError => 500,
            ErrorKind::NotFound => 404,
        }
    }
}

/// The body of an error response: a message.
#[derive(Debug)]
pub struct ApiError {
    pub err: String,
}

impl ApiError {
    /// An error body with message `err`.
    pub fn new(err: String) -> (r: ApiError)
        ensures
            r.err@ == err@,
    {
        ApiError { err }
    }
}

/// An error response: a status code and an error body.
#[derive(Debug)]
pub struct ErrorResponse {
    pub error: ApiError,
    pub status: u16,
}

impl ErrorResponse {
    /// The response with status `status` and message `err`.
    pub fn new(status: u16, err: String) -> (r: ErrorResponse)
        ensures
            r.status == status,
            r.error.err@ == err@,
    {
        ErrorResponse { error: ApiError { err }, status }
    }

    /// The response for a failure of kind `kind` with message `err`.
    pub fn of_kind(kind: ErrorKind, err: String) -> (r: ErrorResponse)
        ensures
            r.status == status_for(kind),
            r.error.err@ == err@,
    {
        ErrorResponse::new(kind.status_code(), err)
    }
}

} // verus!
