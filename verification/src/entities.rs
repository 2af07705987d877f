//! The user entity: one account, identified by a 128-bit id, bound to an
//! authentication subject and a validated email, optionally carrying a
//! password hash for locally-authenticated accounts.

use vstd::prelude::*;

use crate::text::{uuid_seq, uuid_to_string};
use crate::value_objects::Email;

verus! {

/// The mathematical content of a [`User`] record.
pub struct UserView {
    pub id: u128,
    pub subject: Seq<char>,
    pub email: Seq<char>,
    pub password_hash: Option<Seq<char>>,
    pub created_at: int,
}

impl UserView {
    /// The same record with its subject rebound (account linking).
    pub open spec fn with_subject(self, subject: Seq<char>) -> UserView {
        UserView { subject, ..self }
    }
}

/// A user in the system. `subject` names the authentication principal (an
/// external provider's subject claim, or a synthesized local one) and may be
/// rewritten during account linking; everything else is set at creation.
#[derive(Debug)]
pub struct User {
    pub id: u128,
    pub subject: String,
    pub email: Email,
    pub password_hash: Option<String>,
    pub created_at: i64,
}

impl View for User {
    type V = UserView;

    open spec fn view(&self) -> UserView {
        UserView {
            id: self.id,
            subject: self.subject@,
            email: self.email@,
            password_hash: match self.password_hash {
                Some(h) => Some(h@),
                None => None,
            },
            created_at: self.created_at as int,
        }
    }
}

impl Clone for User {
    fn clone(&self) -> (r: Self)
        ensures
            r@ == self@,
    {
        User {
            id: self.id,
            subject: self.subject.clone(),
            email: self.email.clone(),
            password_hash: match &self.password_hash {
                Some(h) => Some(h.clone()),
                None => None,
            },
            created_at: self.created_at,
        }
    }
}

/// Relies on `uuid::Uuid::new_v4` (read out with `as_u128`): a freshly
/// generated random 128-bit identifier. Nothing is promised of its value.
#[verifier::external_body]
fn fresh_id() -> u128 {
    uuid::Uuid::new_v4().as_u128()
}

/// Relies on `chrono::Utc::now` (read out with `timestamp_millis`): the
/// current time in milliseconds since the Unix epoch. Nothing is promised of
/// its value.
#[verifier::external_body]
fn now_millis() -> i64 {
    chrono::Utc::now().timestamp_millis()
}

impl User {
    /// A new externally-authenticated user: fresh id, the given subject and
    /// email, no password hash, created now.
    pub fn new(subject: &str, email: Email) -> (u: User)
        ensures
            u@.subject == subject@,
            u@.email == email@,
            u@.password_hash is None,
    {
        User {
            id: fresh_id(),
            subject: String::from_str(subject),
            email,
            password_hash: None,
            created_at: now_millis(),
        }
    }

    /// Reassembles a user from its stored fields.
    pub fn with_id(
        id: u128,
        subject: &str,
        email: Email,
        password_hash: Option<String>,
        created_at: i64,
    ) -> (u: User)
        ensures
            u@.id == id,
            u@.subject == subject@,
            u@.email == email@,
            u@.password_hash == match password_hash {
                Some(h) => Some(h@),
                None => None::<Seq<char>>,
            },
            u@.created_at == created_at as int,
    {
        User { id, subject: String::from_str(subject), email, password_hash, created_at }
    }

    /// A new locally-authenticated user: fresh id, a synthesized
    /// `local|<id>` subject, the given email and password hash, created now.
    pub fn new_local(email: Email, password_hash: &str) -> (u: User)
        ensures
            u@.email == email@,
            u@.password_hash == Some(password_hash@),
            exists|x: u128| u@.subject == "local|"@ + uuid_seq(x),
    {
        let tag = fresh_id();
        let mut subject = String::from_str("local|");
        let tag_text = uuid_to_string(tag);
        subject.append(tag_text.as_str());
        proof {
            assert(subject@ == "local|"@ + uuid_seq(tag));
        }
        User {
            id: fresh_id(),
            subject,
            email,
            password_hash: Some(String::from_str(password_hash)),
            created_at: now_millis(),
        }
    }

    /// The email as text.
    pub fn email_str(&self) -> (r: &str)
        ensures
            r@ == self@.email,
    {
        self.email.as_str()
    }
}

} // verus!
