use vstd::prelude::*;

verus! {

/// The errors that the API's request handling reports.
#[derive(Debug)]
pub enum ApiError {
    Validation(String),
    BadRequest(String),
    Unauthorized,
    Forbidden,
    NotFound,
    Conflict(String),
    Internal(String),
}

impl ApiError {
    /// This is a validation error carrying exactly `msg`.
    pub open spec fn is_validation(self, msg: Seq<char>) -> bool {
        self matches ApiError::Validation(m) && m@ == msg
    }

    /// This is a conflict error carrying exactly `msg`.
    pub open spec fn is_conflict(self, msg: Seq<char>) -> bool {
        self matches ApiError::Conflict(m) && m@ == msg
    }

    /// This is an internal error carrying exactly `msg`.
    pub open spec fn is_internal(self, msg: Seq<char>) -> bool {
        self matches ApiError::Internal(m) && m@ == msg
    }

    /// A validation error with the given message.
    pub fn validation(msg: &str) -> (e: ApiError)
        ensures
            e.is_validation(msg@),
    {
        ApiError::Validation(msg.to_owned())
    }

    /// A conflict error with the given message.
    pub fn conflict(msg: &str) -> (e: ApiError)
        ensures
            e.is_conflict(msg@),
    {
        ApiError::Conflict(msg.to_owned())
    }

    /// An internal error with the given message.
    pub fn internal(msg: &str) -> (e: ApiError)
        ensures
            e.is_internal(msg@),
    {
        ApiError::Internal(msg.to_owned())
    }
}

} // verus!
