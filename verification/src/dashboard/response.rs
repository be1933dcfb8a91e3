//! How the dashboard answers a request that failed.

use vstd::prelude::*;
use vstd::string::StringExecFns;

verus! {

/// Why a request failed. `Internal` holds the text of the error that
/// caused it.
#[derive(Debug, Clone)]
pub enum AppError {
    BadRequest(String),
    Unauthorized,
    Forbidden,
    NotFound(String),
    Internal(String),
}

impl AppError {
    /// The HTTP status that stands for the error.
    pub open spec fn status_of(&self) -> u16 {
        match self {
            AppError::BadRequest(_) => 400,
            AppError::Unauthorized => 401,
            AppError::Forbidden => 403,
            AppError::NotFound(_) => 404,
            AppError::Internal(_) => 500,
        }
    }

    /// The message that the caller reads.
    pub open spec fn message_of(&self) -> Seq<char> {
        match self {
            AppError::BadRequest(msg) => msg@,
            AppError::Unauthorized => "Unauthorized"@,
            AppError::Forbidden => "Forbidden"@,
            AppError::NotFound(msg) => msg@,
            AppError::Internal(e) => "Internal server error: "@ + e@,
        }
    }

    pub fn status(&self) -> (r: u16)
        ensures
            r == self.status_of(),
    {
        match self {
            AppError::BadRequest(_) => 400,
            AppError::Unauthorized => 401,
            AppError::Forbidden => 403,
            AppError::NotFound(_) => 404,
            AppError::Internal(_) => 500,
        }
    }

    pub fn message(&self) -> (r: String)
        ensures
            r@ == self.message_of(),
    {
        match self {
            AppError::BadRequest(msg) => msg.clone(),
            AppError::Unauthorized => String::from_str("Unauthorized"),
            AppError::Forbidden => String::from_str("Forbidden"),
            AppError::NotFound(msg) => msg.clone(),
            AppError::Internal(e) => {
                let mut r = String::from_str("Internal server error: ");
                r.append(e.as_str());
                r
            },
        }
    }
}

} // verus!
