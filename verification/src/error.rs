//! Error values of the library.

use vstd::prelude::*;

verus! {

/// Errors of the configuration stores and of the agent tools.
#[derive(Debug, Clone)]
pub enum CoreError {
    /// A rule was broken; the message says which.
    Other(String),
    /// A looked-up record does not exist.
    NotFound(String),
}

/// Errors handed back to the front end.
#[derive(Debug, Clone)]
pub enum IpcError {
    /// The request itself is wrong.
    BadRequest(String),
    /// The addressed record does not exist.
    NotFound(String),
    /// Something failed inside the backend.
    Internal(String),
}

impl CoreError {
    /// `self` is `Other` with message `m`.
    pub open spec fn is_other(self, m: Seq<char>) -> bool {
        self matches CoreError::Other(s) && s@ == m
    }

    /// `self` is `NotFound` with message `m`.
    pub open spec fn is_not_found(self, m: Seq<char>) -> bool {
        self matches CoreError::NotFound(s) && s@ == m
    }
}

impl IpcError {
    /// `self` is `BadRequest` with message `m`.
    pub open spec fn is_bad_request(self, m: Seq<char>) -> bool {
        self matches IpcError::BadRequest(s) && s@ == m
    }

    /// `self` is `NotFound` with message `m`.
    pub open spec fn is_not_found(self, m: Seq<char>) -> bool {
        self matches IpcError::NotFound(s) && s@ == m
    }
}

} // verus!
