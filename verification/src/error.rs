//! The errors that requests end in, and the HTTP status each is answered with.
use vstd::prelude::*;

verus! {

/// An error that a request ends in.
#[derive(Debug, Clone)]
pub enum AppError {
    NotFound(String),
    Conflict(String),
    BadRequest(String),
    Internal(String),
}

impl AppError {
    /// The HTTP status code the error is answered with.
    pub open spec fn spec_status(self) -> u16 {
        match self {
            AppError::NotFound(_) => 404,
            AppError::Conflict(_) => 409,
            AppError::BadRequest(_) => 400,
            AppError::Internal(_) => 500,
        }
    }

    /// The message the error carries.
    pub open spec fn spec_message(self) -> Seq<char> {
        match self {
            AppError::NotFound(m) => m@,
            AppError::Conflict(m) => m@,
            AppError::BadRequest(m) => m@,
            AppError::Internal(m) => m@,
        }
    }

    pub fn status_code(&self) -> (r: u16)
        ensures
            r == self.spec_status(),
    {
        match self {
            AppError::NotFound(_) => 404,
            AppError::Conflict(_) => 409,
            AppError::BadRequest(_) => 400,
            AppError::Internal(_) => 500,
        }
    }

    pub fn message(&self) -> (r: String)
        ensures
            r@ == self.spec_message(),
    {
        match self {
            AppError::NotFound(m) => m.clone(),
            AppError::Conflict(m) => m.clone(),
            AppError::BadRequest(m) => m.clone(),
            AppError::Internal(m) => m.clone(),
        }
    }

    /// `NotFound("task {id} not found")`.
    pub fn task_not_found(id: &str) -> (r: AppError)
        ensures
            r is NotFound,
            r.spec_message() == "task "@ + id@ + " not found"@,
    {
        let mut m = String::from_str("task ");
        m.append(id);
        m.append(" not found");
        AppError::NotFound(m)
    }

    /// `Internal("invalid ttyd port in database")`.
    pub fn invalid_port() -> (r: AppError)
        ensures
            r is Internal,
            r.spec_message() == "invalid ttyd port in database"@,
    {
        AppError::Internal(String::from_str("invalid ttyd port in database"))
    }
}

} // verus!
