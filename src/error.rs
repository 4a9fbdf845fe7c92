use vstd::prelude::*;

verus! {

/// The kinds of failure that the service reports.
#[derive(Debug, PartialEq, Eq)]
pub enum MovieramaError {
    /// A failure of the underlying store, with its message.
    DatabaseError(String),
    /// The referenced movie or user does not exist.
    NotFound,
    /// Bad credentials, or a missing, malformed or expired token.
    Unauthorized,
    /// Malformed input, such as an unknown vote type.
    BadRequest(String),
    /// Anything else, such as missing server configuration.
    UnexpectedError(String),
}

/// The HTTP status that each kind of failure maps to.
pub open spec fn spec_status_code(e: MovieramaError) -> u16 {
    match e {
        MovieramaError::NotFound => 404,
        MovieramaError::Unauthorized => 401,
        MovieramaError::BadRequest(_) => 400,
        MovieramaError::DatabaseError(_) => 500,
        MovieramaError::UnexpectedError(_) => 500,
    }
}

impl MovieramaError {
    /// HTTP status code for this error.
    pub fn status_code(&self) -> (r: u16)
        ensures
            r == spec_status_code(*self),
    {
        match self {
            MovieramaError::NotFound => 404,
            MovieramaError::Unauthorized => 401,
            MovieramaError::BadRequest(_) => 400,
            MovieramaError::DatabaseError(_) => 500,
            MovieramaError::UnexpectedError(_) => 500,
        }
    }
}

} // verus!
