//! User records, the creation request, and the service's error kinds.
use vstd::prelude::*;
use vstd::string::*;

verus! {

/// One account record, stored under its `id`.
#[derive(Debug, PartialEq, Eq)]
pub struct User {
    pub id: u128,
    pub name: String,
    pub email: String,
}

impl Clone for User {
    fn clone(&self) -> (r: Self)
        ensures
            r == *self,
    {
        User { id: self.id, name: self.name.clone(), email: self.email.clone() }
    }
}

/// The raw, unvalidated input of a creation.
#[derive(Debug, Clone, PartialEq, Eq)]
pub struct CreateUserRequest {
    pub name: String,
    pub email: String,
}

/// The failures a request can end in.
#[derive(Debug, Clone, PartialEq, Eq)]
pub enum ApiError {
    NotFound,
    BadRequest(String),
    Internal,
}

/// The status code of each error kind.
pub open spec fn status_of(e: ApiError) -> u16 {
    match e {
        ApiError::NotFound => 404,
        ApiError::BadRequest(_) => 400,
        ApiError::Internal => 500,
    }
}

/// The message shown to the caller for each error kind.
pub open spec fn message_of(e: ApiError) -> Seq<char> {
    match e {
        ApiError::NotFound => "user not found"@,
        ApiError::BadRequest(m) => "bad request: "@ + m@,
        ApiError::Internal => "internal server error"@,
    }
}

impl ApiError {
    pub fn status_code(&self) -> (r: u16)
        ensures
            r == status_of(*self),
    {
        match self {
            ApiError::NotFound => 404,
            ApiError::BadRequest(_) => 400,
            ApiError::Internal => 500,
        }
    }

    /// The human-readable message, as the error body carries it.
    pub fn message(&self) -> (r: String)
        ensures
            r@ == message_of(*self),
    {
        match self {
            ApiError::NotFound => String::from_str("user not found"),
            ApiError::BadRequest(m) => {
                let mut s = String::from_str("bad request: ");
                s.append(m.as_str());
                s
            },
            ApiError::Internal => String::from_str("internal server error"),
        }
    }
}

} // verus!
