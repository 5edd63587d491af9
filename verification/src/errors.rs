//! The error taxonomy every operation reports through: each failure maps to
//! one of these kinds; no internal error detail crosses the boundary.

use vstd::prelude::*;

verus! {

/// What an operation reports when it cannot commit its observable change.
#[derive(Clone, Copy, PartialEq, Eq, Structural, Debug)]
pub enum ApiError {
    /// Missing, invalid or unresolvable token, or bad login credentials.
    Unauthorized,
    /// Uniqueness violation on register.
    Conflict,
    /// File absent, not owned by the caller, or not public.
    NotFound,
    /// Malformed upload request.
    BadRequest,
    /// Catalog or storage failure not attributable to caller input.
    Internal,
}

impl ApiError {
    /// The HTTP status this error surfaces as.
    pub open spec fn spec_status(self) -> u16 {
        match self {
            ApiError::Unauthorized => 401,
            ApiError::Conflict => 409,
            ApiError::NotFound => 404,
            ApiError::BadRequest => 400,
            ApiError::Internal => 500,
        }
    }

    pub fn status_code(&self) -> (code: u16)
        ensures
            code == self.spec_status(),
    {
        match self {
            ApiError::Unauthorized => 401,
            ApiError::Conflict => 409,
            ApiError::NotFound => 404,
            ApiError::BadRequest => 400,
            ApiError::Internal => 500,
        }
    }

    /// A short, fixed message for the response body.
    pub fn message(&self) -> (msg: &'static str)
        ensures
            self is Unauthorized ==> msg@ == "Invalid credentials"@,
            self is Conflict ==> msg@ == "User already exists"@,
            self is NotFound ==> msg@ == "File not found"@,
            self is BadRequest ==> msg@ == "No file uploaded"@,
            self is Internal ==> msg@ == "Internal error"@,
    {
        match self {
            ApiError::Unauthorized => "Invalid credentials",
            ApiError::Conflict => "User already exists",
            ApiError::NotFound => "File not found",
            ApiError::BadRequest => "No file uploaded",
            ApiError::Internal => "Internal error",
        }
    }
}

} // verus!
