//! Domain-level errors, and how each renders to text. The API layer maps
//! them to HTTP status codes (see `http`).

use vstd::prelude::*;

use crate::text::{uuid_seq, uuid_to_string};
use crate::value_objects::ValidationError;

verus! {

/// Failures a domain operation can surface.
#[derive(Debug)]
pub enum DomainError {
    /// The requested user was not found; carries the requested id.
    UserNotFound(u128),
    /// A user with this email or subject already exists.
    UserAlreadyExists(String),
    /// A validation error occurred.
    ValidationError(String),
    /// The caller is not authorized to perform this action.
    Unauthorized(String),
    /// An opaque repository/storage failure.
    RepositoryError(String),
    /// An infrastructure adapter failure.
    InfrastructureError(String),
}

impl DomainError {
    /// The message each variant renders to.
    pub open spec fn message_spec(&self) -> Seq<char> {
        match self {
            DomainError::UserNotFound(id) => "User not found: "@ + uuid_seq(*id),
            DomainError::UserAlreadyExists(s) => "User already exists: "@ + s@,
            DomainError::ValidationError(s) => "Validation error: "@ + s@,
            DomainError::Unauthorized(s) => "Unauthorized: "@ + s@,
            DomainError::RepositoryError(s) => "Repository error: "@ + s@,
            DomainError::InfrastructureError(s) => "Infrastructure error: "@ + s@,
        }
    }

    /// Renders the error as text.
    pub fn message(&self) -> (r: String)
        ensures
            r@ == self.message_spec(),
    {
        match self {
            DomainError::UserNotFound(id) => {
                let mut r = String::from_str("User not found: ");
                let t = uuid_to_string(*id);
                r.append(t.as_str());
                r
            },
            DomainError::UserAlreadyExists(s) => {
                let mut r = String::from_str("User already exists: ");
                r.append(s.as_str());
                r
            },
            DomainError::ValidationError(s) => {
                let mut r = String::from_str("Validation error: ");
                r.append(s.as_str());
                r
            },
            DomainError::Unauthorized(s) => {
                let mut r = String::from_str("Unauthorized: ");
                r.append(s.as_str());
                r
            },
            DomainError::RepositoryError(s) => {
                let mut r = String::from_str("Repository error: ");
                r.append(s.as_str());
                r
            },
            DomainError::InfrastructureError(s) => {
                let mut r = String::from_str("Infrastructure error: ");
                r.append(s.as_str());
                r
            },
        }
    }

    /// A validation error with the given message.
    pub fn validation(message: &str) -> (r: Self)
        ensures
            r matches DomainError::ValidationError(m) && m@ == message@,
    {
        DomainError::ValidationError(String::from_str(message))
    }

    /// An unauthorized error with the given message.
    pub fn unauthorized(message: &str) -> (r: Self)
        ensures
            r matches DomainError::Unauthorized(m) && m@ == message@,
    {
        DomainError::Unauthorized(String::from_str(message))
    }

    /// Whether this error means "not found".
    pub fn is_not_found(&self) -> (r: bool)
        ensures
            r == (self matches DomainError::UserNotFound(_)),
    {
        match self {
            DomainError::UserNotFound(_) => true,
            _ => false,
        }
    }

    /// Whether this error means a conflict (already exists).
    pub fn is_conflict(&self) -> (r: bool)
        ensures
            r == (self matches DomainError::UserAlreadyExists(_)),
    {
        match self {
            DomainError::UserAlreadyExists(_) => true,
            _ => false,
        }
    }

    /// Lifts a value-object rejection into the domain error, rendered as the
    /// validation message.
    pub fn from_validation(error: &ValidationError) -> (r: Self)
        ensures
            r matches DomainError::ValidationError(m) && m@ == error.message_spec(),
    {
        DomainError::ValidationError(error.message())
    }
}

} // verus!
