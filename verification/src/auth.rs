//! The credential check for local (password) login, on top of the user-store
//! port. Unknown email, missing stored hash and wrong password all collapse
//! into the same "no user" outcome, so nothing user-visible distinguishes
//! them (no account enumeration).

use vstd::prelude::*;

use crate::entities::User;
use crate::repositories::{email_absent, UserRepository};

verus! {

/// What `password_auth::verify_password` answers for a given plaintext and
/// hash: a function of the two arguments alone.
pub uninterp spec fn password_matches(password: Seq<char>, hash: Seq<char>) -> bool;

/// Relies on `password_auth::verify_password`: timing-safe verification of a
/// plaintext against a PHC-format hash string, succeeding exactly when they
/// match (a parse failure of the hash counts as a mismatch). Deterministic
/// in its two arguments.
#[verifier::external_body]
fn verify_password_hash(password: &str, hash: &str) -> (r: bool)
    ensures
        r == password_matches(password@, hash@),
{
    password_auth::verify_password(password, hash).is_ok()
}

/// Credentials presented at login.
#[derive(Debug, Clone)]
pub struct Credentials {
    pub email: String,
    pub password: String,
}

/// Failure of the authentication backend itself (not of the credentials):
/// an underlying store error, rendered as text.
#[derive(Debug)]
pub enum AuthError {
    Backend(String),
}

/// The decision once a lookup has answered: succeed exactly when a user was
/// found whose stored hash matches the password.
pub fn check_credentials(user: Option<User>, password: &str) -> (r: Option<AuthUser>)
    ensures
        (r is Some) <==> (user matches Some(u) && u@.password_hash matches Some(h)
            && password_matches(password@, h)),
        r matches Some(au) ==> (user matches Some(u) && au.0@ == u@),
{
    if let Some(user) = user {
        if let Some(hash) = &user.password_hash {
            if verify_password_hash(password, hash.as_str()) {
                return Some(AuthUser(user));
            }
        }
    }
    None
}

/// A user in their role as an authenticated principal.
#[derive(Debug)]
pub struct AuthUser(pub User);

impl AuthUser {
    /// The principal's id.
    pub fn id(&self) -> (r: u128)
        ensures
            r == self.0@.id,
    {
        self.0.id
    }

    /// Bytes the session layer binds a session to, so that changing the
    /// password invalidates existing sessions: the stored hash's bytes,
    /// empty when no hash is set.
    pub fn session_auth_hash(&self) -> (r: Vec<u8>)
        ensures
            r@ == match self.0@.password_hash {
                Some(h) => vstd::utf8::encode_utf8(h),
                None => Seq::<u8>::empty(),
            },
    {
        match &self.0.password_hash {
            Some(s) => s.as_str().as_bytes_vec(),
            None => Vec::new(),
        }
    }
}

/// Authentication backend: lookup by email plus password verification.
pub struct AuthBackend<R: UserRepository> {
    pub user_repo: R,
}

impl<R: UserRepository> AuthBackend<R> {
    /// Wraps the given store.
    pub fn new(user_repo: R) -> (r: Self)
        ensures
            r.user_repo == user_repo,
    {
        AuthBackend { user_repo }
    }

    /// The authentication check: look the user up by email, then verify the
    /// password against the stored hash. Success pins a stored user whose
    /// hash matches; failure means no email match, or a match whose hash is
    /// absent or does not verify — uniformly "no user".
    pub fn authenticate(&self, creds: Credentials) -> (r: Result<Option<AuthUser>, AuthError>)
        requires
            self.user_repo.wf(),
        ensures
            r matches Ok(Some(au)) ==> (self.user_repo.store().contains_key(au.0@.id)
                && self.user_repo.store()[au.0@.id] == au.0@ && au.0@.email == creds.email@ && (
            au.0@.password_hash matches Some(h) && password_matches(creds.password@, h))),
            r matches Ok(None) ==> (email_absent(self.user_repo.store(), creds.email@) || (
            exists|k: u128|
                {
                    &&& #[trigger] self.user_repo.store().contains_key(k)
                    &&& self.user_repo.store()[k].email == creds.email@
                    &&& !(self.user_repo.store()[k].password_hash matches Some(h)
                        && password_matches(creds.password@, h))
                })),
            self.user_repo.infallible() ==> r is Ok,
    {
        let user = match self.user_repo.find_by_email(creds.email.as_str()) {
            Ok(u) => u,
            Err(e) => {
                return Err(AuthError::Backend(e.message()));
            },
        };
        Ok(check_credentials(user, creds.password.as_str()))
    }

    /// Loads the principal for a session's stored user id.
    pub fn get_user(&self, user_id: u128) -> (r: Result<Option<AuthUser>, AuthError>)
        requires
            self.user_repo.wf(),
        ensures
            r matches Ok(Some(au)) ==> self.user_repo.store().contains_key(user_id) && au.0@
                == self.user_repo.store()[user_id],
            r matches Ok(None) ==> !self.user_repo.store().contains_key(user_id),
            self.user_repo.infallible() ==> r is Ok,
    {
        match self.user_repo.find_by_id(user_id) {
            Ok(Some(u)) => Ok(Some(AuthUser(u))),
            Ok(None) => Ok(None),
            Err(e) => Err(AuthError::Backend(e.message())),
        }
    }
}

} // verus!
