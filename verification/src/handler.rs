use vstd::prelude::*;

use crate::jenkins_client::{client_error_text, JenkinsClientError};

verus! {

/// The one error kind the HTTP surface reports: any upstream failure,
/// passed through unchanged.
#[derive(Debug, PartialEq)]
pub enum Error {
    JenkinsError(JenkinsClientError),
}

/// The body of an error response: the wrapped failure's own description,
/// passed through unchanged.
pub open spec fn error_text(e: Error) -> Seq<char> {
    match e {
        Error::JenkinsError(inner) => client_error_text(inner),
    }
}

impl Error {
    /// The HTTP status every upstream failure maps to.
    pub fn status_code(&self) -> (r: u16)
        ensures
            r == 500,
    {
        match self {
            Error::JenkinsError(_) => 500,
        }
    }

    /// The response body for this failure.
    pub fn describe(&self) -> (r: String)
        ensures
            r@ == error_text(*self),
    {
        match self {
            Error::JenkinsError(inner) => inner.describe(),
        }
    }
}

/// The query parameters of the latest-activities endpoint.
#[derive(Debug, PartialEq)]
pub struct ActivityParams {
    pub limit: usize,
}

/// The activity limit used when the query names none.
pub fn default_limit() -> (r: usize)
    ensures
        r == 10,
{
    10
}

} // verus!
