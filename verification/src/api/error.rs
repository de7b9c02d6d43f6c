//! Errors of the API.

use vstd::prelude::*;

verus! {

/// Why a request was not served.
#[derive(Debug)]
pub enum ApiError {
    /// The request makes no sense.
    BadRequest(String),
    /// What the request names does not exist.
    NotFound(String),
    /// The request contradicts what is there.
    Conflict(String),
    /// The database failed.
    Database(String),
}

impl ApiError {
    /// The HTTP status.
    pub open spec fn status_code(self) -> u16 {
        match self {
            ApiError::BadRequest(_) => 400,
            ApiError::NotFound(_) => 404,
            ApiError::Conflict(_) => 409,
            ApiError::Database(_) => 500,
        }
    }

    /// What the error says.
    pub open spec fn text(self) -> Seq<char> {
        match self {
            ApiError::BadRequest(m) => m@,
            ApiError::NotFound(m) => m@,
            ApiError::Conflict(m) => m@,
            ApiError::Database(m) => m@,
        }
    }

    /// The HTTP status.
    pub fn status(&self) -> (r: u16)
        ensures
            r == self.status_code(),
    {
        match self {
            ApiError::BadRequest(_) => 400,
            ApiError::NotFound(_) => 404,
            ApiError::Conflict(_) => 409,
            ApiError::Database(_) => 500,
        }
    }

    /// What the error says.
    pub fn message(&self) -> (r: &str)
        ensures
            r@ == self.text(),
    {
        match self {
            ApiError::BadRequest(m) => m.as_str(),
            ApiError::NotFound(m) => m.as_str(),
            ApiError::Conflict(m) => m.as_str(),
            ApiError::Database(m) => m.as_str(),
        }
    }
}

/// The request was turned down for this reason.
pub open spec fn is_bad_request(e: ApiError, text: Seq<char>) -> bool {
    e is BadRequest && e.text() == text
}

/// What was asked for does not exist, for this reason.
pub open spec fn is_not_found(e: ApiError, text: Seq<char>) -> bool {
    e is NotFound && e.text() == text
}

/// The request contradicts what is there, for this reason.
pub open spec fn is_conflict(e: ApiError, text: Seq<char>) -> bool {
    e is Conflict && e.text() == text
}

/// The database failed, for this reason.
pub open spec fn is_database(e: ApiError, text: Seq<char>) -> bool {
    e is Database && e.text() == text
}

/// Each kind of error has its own status, and says what it was given.
pub proof fn errors_have_their_status(e: ApiError, text: Seq<char>)
    ensures
        is_bad_request(e, text) ==> e.status_code() == 400 && e is BadRequest && e->BadRequest_0@
            == text,
        is_not_found(e, text) ==> e.status_code() == 404 && e is NotFound && e->NotFound_0@ == text,
        is_conflict(e, text) ==> e.status_code() == 409 && e is Conflict && e->Conflict_0@ == text,
        is_database(e, text) ==> e.status_code() == 500 && e is Database && e->Database_0@ == text,
{
}

} // verus!
