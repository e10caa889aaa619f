//! Errors that the service logic reports to its callers.

use vstd::prelude::*;

verus! {

/// An error answered to an API request.
#[derive(Debug)]
pub enum ApiError {
    /// The request is invalid; the text says why.
    Validation(String),
    /// A requested resource does not exist.
    NotFound(String),
    /// No cluster has the given id.
    ClusterNotFound(i64),
    /// The caller may not perform the operation.
    Forbidden(String),
}

} // verus!
