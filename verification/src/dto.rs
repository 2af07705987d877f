//! Request and response payloads of the API surface.

use vstd::prelude::*;

use crate::entities::User;

verus! {

/// Login request payload.
#[derive(Debug)]
pub struct LoginRequest {
    pub email: String,
    pub password: String,
}

/// Registration request payload.
#[derive(Debug)]
pub struct RegisterRequest {
    pub email: String,
    pub password: String,
}

/// The user summary returned on success.
#[derive(Debug)]
pub struct UserResponse {
    pub id: u128,
    pub email: String,
    pub created_at: i64,
}

impl UserResponse {
    /// The summary of a user record.
    pub fn of_user(u: &User) -> (r: UserResponse)
        ensures
            r.id == u@.id,
            r.email@ == u@.email,
            r.created_at as int == u@.created_at,
    {
        UserResponse {
            id: u.id,
            email: String::from_str(u.email_str()),
            created_at: u.created_at,
        }
    }
}

/// System configuration response.
#[derive(Debug)]
pub struct ConfigResponse {
    pub allow_registration: bool,
}

/// The configuration the API reports: registration is allowed.
pub fn get_config() -> (r: ConfigResponse)
    ensures
        r.allow_registration,
{
    ConfigResponse { allow_registration: true }
}

} // verus!
