//! Errors surfaced to API callers. A rejected request always carries an
//! explicit reason; internal errors mark invariant violations confined to
//! the single record being processed.

use vstd::prelude::*;

verus! {

/// Error returned by the request-facing operations of the library.
#[derive(Clone, Copy, Debug)]
pub enum ApiError {
    /// The request is malformed or names something that does not exist.
    BadRequest(&'static str),
    /// The requesting player does not own the unit it tries to command.
    Forbidden(&'static str),
    /// An invariant of the stored data does not hold for this record.
    Internal(&'static str),
}

impl ApiError {
    /// The reason attached to the error, for logging and responses.
    pub fn reason(&self) -> (r: &'static str)
        ensures
            (match *self {
                ApiError::BadRequest(m) => r == m,
                ApiError::Forbidden(m) => r == m,
                ApiError::Internal(m) => r == m,
            }),
    {
        match *self {
            ApiError::BadRequest(m) => m,
            ApiError::Forbidden(m) => m,
            ApiError::Internal(m) => m,
        }
    }
}

} // verus!
