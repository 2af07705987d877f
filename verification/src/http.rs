//! API-level errors and their mapping to HTTP status codes and response
//! bodies, plus the decision logic of the registration and session handlers.
//! The surrounding web framework performs the transport; everything it needs
//! to answer with is computed here.

use vstd::prelude::*;

use crate::auth::{AuthError, AuthUser};
use crate::dto::UserResponse;
use crate::entities::User;
use crate::errors::DomainError;
use crate::repositories::{email_absent, UserRepository};
use crate::services::{resolve_ok_post, UserService};
use crate::value_objects::{
    lemma_normalize_email_idempotent, normalize_email, valid_email, Email,
};

verus! {

/// API-level errors.
#[derive(Debug)]
pub enum ApiError {
    /// A domain error, mapped by its own kind.
    Domain(DomainError),
    /// A request failed validation.
    Validation(String),
    /// An internal failure; details are never exposed to the client.
    Internal(String),
    /// The caller may not do this.
    Forbidden(String),
    /// The caller is not logged in.
    Unauthorized(String),
}

/// Error response body: a message and optional details.
#[derive(Debug)]
pub struct ErrorResponse {
    pub error: String,
    pub details: Option<String>,
}

/// The HTTP status each error maps to.
pub open spec fn status_of(e: ApiError) -> u16 {
    match e {
        ApiError::Domain(d) => match d {
            DomainError::UserNotFound(_) => 404,
            DomainError::UserAlreadyExists(_) => 409,
            DomainError::ValidationError(_) => 400,
            DomainError::Unauthorized(_) => 403,
            DomainError::RepositoryError(_) => 500,
            DomainError::InfrastructureError(_) => 500,
        },
        ApiError::Validation(_) => 400,
        ApiError::Internal(_) => 500,
        ApiError::Forbidden(_) => 403,
        ApiError::Unauthorized(_) => 401,
    }
}

/// The message of the response body for each error. Internal details stay
/// hidden behind a fixed message.
pub open spec fn error_text_of(e: ApiError) -> Seq<char> {
    match e {
        ApiError::Domain(d) => d.message_spec(),
        ApiError::Validation(_) => "Validation error"@,
        ApiError::Internal(_) => "Internal server error"@,
        ApiError::Forbidden(_) => "Forbidden"@,
        ApiError::Unauthorized(_) => "Unauthorized"@,
    }
}

/// The details of the response body for each error.
pub open spec fn details_of(e: ApiError) -> Option<Seq<char>> {
    match e {
        ApiError::Domain(_) => None,
        ApiError::Validation(m) => Some(m@),
        ApiError::Internal(_) => None,
        ApiError::Forbidden(m) => Some(m@),
        ApiError::Unauthorized(m) => Some(m@),
    }
}

impl ApiError {
    /// A validation error with the given message.
    pub fn validation(msg: &str) -> (r: Self)
        ensures
            r matches ApiError::Validation(m) && m@ == msg@,
    {
        ApiError::Validation(String::from_str(msg))
    }

    /// An internal error with the given message.
    pub fn internal(msg: &str) -> (r: Self)
        ensures
            r matches ApiError::Internal(m) && m@ == msg@,
    {
        ApiError::Internal(String::from_str(msg))
    }

    /// The status code and response body this error answers with.
    pub fn response_parts(&self) -> (r: (u16, ErrorResponse))
        ensures
            r.0 == status_of(*self),
            r.1.error@ == error_text_of(*self),
            match details_of(*self) {
                Some(d) => r.1.details matches Some(x) && x@ == d,
                None => r.1.details is None,
            },
    {
        match self {
            ApiError::Domain(d) => {
                let status: u16 = match d {
                    DomainError::UserNotFound(_) => 404,
                    DomainError::UserAlreadyExists(_) => 409,
                    DomainError::ValidationError(_) => 400,
                    DomainError::Unauthorized(_) => 403,
                    DomainError::RepositoryError(_) => 500,
                    DomainError::InfrastructureError(_) => 500,
                };
                (status, ErrorResponse { error: d.message(), details: None })
            },
            ApiError::Validation(m) => (
                400,
                ErrorResponse {
                    error: String::from_str("Validation error"),
                    details: Some(m.clone()),
                },
            ),
            ApiError::Internal(_) => (
                500,
                ErrorResponse { error: String::from_str("Internal server error"), details: None },
            ),
            ApiError::Forbidden(m) => (
                403,
                ErrorResponse { error: String::from_str("Forbidden"), details: Some(m.clone()) },
            ),
            ApiError::Unauthorized(m) => (
                401,
                ErrorResponse {
                    error: String::from_str("Unauthorized"),
                    details: Some(m.clone()),
                },
            ),
        }
    }
}

/// The `me` endpoint's decision: the summary of the session's user, or
/// `401 Unauthorized` when nobody is logged in.
pub fn me_response(user: Option<AuthUser>) -> (r: Result<UserResponse, ApiError>)
    ensures
        user matches Some(au) ==> (r matches Ok(resp) && resp.id == au.0@.id && resp.email@
            == au.0@.email && resp.created_at as int == au.0@.created_at),
        user is None ==> (r matches Err(e) && e matches ApiError::Unauthorized(m) && m@
            == "Not logged in"@),
{
    match user {
        Some(au) => Ok(UserResponse::of_user(&au.0)),
        None => Err(ApiError::Unauthorized(String::from_str("Not logged in"))),
    }
}

/// The login handler's decision on the authentication check's outcome: a
/// verified principal proceeds; a failed check answers with the uniform
/// "Invalid credentials", whatever the cause; a backend failure answers
/// with a hidden internal error.
pub fn login_outcome(outcome: Result<Option<AuthUser>, AuthError>) -> (r: Result<
    AuthUser,
    ApiError,
>)
    ensures
        outcome matches Ok(Some(au0)) ==> (r matches Ok(au) && au.0@ == au0.0@),
        outcome matches Ok(None) ==> (r matches Err(e) && e matches ApiError::Validation(m) && m@
            == "Invalid credentials"@),
        outcome matches Err(_) ==> (r matches Err(e) && e matches ApiError::Internal(m) && m@
            == "Authentication failed"@),
{
    match outcome {
        Ok(Some(au)) => Ok(au),
        Ok(None) => Err(ApiError::Validation(String::from_str("Invalid credentials"))),
        Err(_) => Err(ApiError::Internal(String::from_str("Authentication failed"))),
    }
}

/// The registration duplicate check: an already-used email is a conflict.
pub fn register_precheck(existing: Option<User>, email: &str) -> (r: Result<(), ApiError>)
    ensures
        r is Ok <==> existing is None,
        r matches Err(e) ==> (e matches ApiError::Domain(d) && d
            matches DomainError::UserAlreadyExists(m) && m@ == email@),
{
    match existing {
        Some(_) => Err(ApiError::Domain(DomainError::UserAlreadyExists(String::from_str(email)))),
        None => Ok(()),
    }
}

/// The registration flow's decision: reject an email already in use with a
/// conflict, reject a malformed email, and otherwise resolve-or-create under
/// the normalized email as both subject and email (a local account's subject
/// is synthesized from its email). On an infallible store, registration
/// succeeds exactly when the email is new and well-formed.
pub fn register_user<R: UserRepository>(service: &mut UserService<R>, email: &str) -> (r: Result<
    User,
    ApiError,
>)
    requires
        old(service).user_repository.wf(),
    ensures
        final(service).user_repository.wf(),
        final(service).user_repository.infallible() == old(service).user_repository.infallible(),
        r matches Ok(u) ==> email_absent(old(service).user_repository.store(), email@)
            && valid_email(normalize_email(email@)) && resolve_ok_post(
            old(service).user_repository.store(),
            normalize_email(email@),
            normalize_email(email@),
            u@,
            final(service).user_repository.store(),
        ),
        r matches Err(e) ==> final(service).user_repository.store() == old(
            service,
        ).user_repository.store() && match e {
            ApiError::Domain(DomainError::UserAlreadyExists(m)) => m@ == email@ && !email_absent(
                old(service).user_repository.store(),
                email@,
            ),
            ApiError::Validation(_) => !valid_email(normalize_email(email@)),
            ApiError::Domain(DomainError::RepositoryError(_)) => true,
            _ => false,
        },
        old(service).user_repository.infallible() ==> (r is Ok <==> email_absent(
            old(service).user_repository.store(),
            email@,
        ) && valid_email(normalize_email(email@))),
        old(service).user_repository.infallible() && !email_absent(
            old(service).user_repository.store(),
            email@,
        ) ==> (r matches Err(ApiError::Domain(DomainError::UserAlreadyExists(m))) && m@ == email@),
        old(service).user_repository.infallible() && email_absent(
            old(service).user_repository.store(),
            email@,
        ) && !valid_email(normalize_email(email@)) ==> r matches Err(ApiError::Validation(_)),
{
    let existing = match service.find_by_email(email) {
        Err(e) => {
            return Err(ApiError::Domain(e));
        },
        Ok(o) => o,
    };
    match register_precheck(existing, email) {
        Err(e) => {
            return Err(e);
        },
        Ok(()) => {},
    }
    let em = match Email::new(email) {
        Ok(em) => em,
        Err(e) => {
            return Err(ApiError::Validation(e.message()));
        },
    };
    proof {
        lemma_normalize_email_idempotent(email@);
    }
    let normalized = em.into_inner();
    match service.find_or_create(normalized.as_str(), normalized.as_str()) {
        Ok(u) => Ok(u),
        Err(e) => Err(ApiError::Domain(e)),
    }
}

} // verus!
