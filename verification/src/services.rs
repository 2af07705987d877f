//! The identity resolver: maps an authenticated `(subject, email)` claim to
//! exactly one canonical user, preserving identity across changes in login
//! method. Three ordered lookups decide the outcome: by subject (stable
//! path), by email (account linking: the stored subject is overwritten on a
//! mere email match — a recognized trust assumption of the design, not a
//! safeguard to add silently), else creation of a fresh user.

use vstd::prelude::*;

use crate::entities::{User, UserView};
use crate::errors::DomainError;
use crate::repositories::{email_absent, subject_absent, subject_unique, upserted, UserRepository};
use crate::text::str_eq;
use crate::value_objects::{normalize_email, valid_email, Email};

verus! {

/// What a successful resolution of `(subject, email)` against the store
/// `st0` returns (`u`) and leaves behind (`st1`): the subject match
/// unchanged with no write, or the email match with its subject rebound and
/// exactly that one write, or a freshly created user and exactly that one
/// write.
pub open spec fn resolve_ok_post(
    st0: Map<u128, UserView>,
    subject: Seq<char>,
    email: Seq<char>,
    u: UserView,
    st1: Map<u128, UserView>,
) -> bool {
    if !subject_absent(st0, subject) {
        &&& st0.contains_key(u.id)
        &&& st0[u.id] == u
        &&& u.subject == subject
        &&& st1 == st0
    } else if !email_absent(st0, email) {
        &&& st0.contains_key(u.id)
        &&& st0[u.id].email == email
        &&& u == st0[u.id].with_subject(subject)
        &&& st1 == st0.insert(u.id, u)
    } else {
        &&& valid_email(normalize_email(email))
        &&& u.subject == subject
        &&& u.email == normalize_email(email)
        &&& u.password_hash is None
        &&& st1 == st0.insert(u.id, upserted(st0, u))
    }
}

/// What a failed resolution means: the store is untouched, and the error is
/// either the validation rejection of the email (exactly when no lookup
/// matched and the email is malformed) or a storage failure.
pub open spec fn resolve_err_post(
    st0: Map<u128, UserView>,
    subject: Seq<char>,
    email: Seq<char>,
    e: DomainError,
    st1: Map<u128, UserView>,
) -> bool {
    &&& st1 == st0
    &&& match e {
        DomainError::ValidationError(_) => subject_absent(st0, subject) && email_absent(st0, email)
            && !valid_email(normalize_email(email)),
        DomainError::RepositoryError(_) => true,
        _ => false,
    }
}

/// The account-linking rule: rebind the stored user's subject to the
/// asserted one; the second component says whether anything changed (and so
/// whether the caller must persist the record).
pub fn apply_subject_link(user: User, subject: &str) -> (r: (User, bool))
    ensures
        r.0@ == user@.with_subject(subject@),
        r.1 == (user@.subject != subject@),
{
    if str_eq(user.subject.as_str(), subject) {
        proof {
            assert(user@.with_subject(subject@) == user@);
        }
        (user, false)
    } else {
        let mut user = user;
        user.subject = String::from_str(subject);
        (user, true)
    }
}

/// Builds the record a fresh identity gets — the given subject, the
/// normalized email, no password hash — failing exactly when the email is
/// malformed.
pub fn create_user_for(subject: &str, email: &str) -> (r: Result<User, DomainError>)
    ensures
        r is Ok <==> valid_email(normalize_email(email@)),
        r matches Ok(u) ==> u@.subject == subject@ && u@.email == normalize_email(email@)
            && u@.password_hash is None,
        r matches Err(e) ==> e matches DomainError::ValidationError(_),
{
    let em = match Email::new(email) {
        Ok(em) => em,
        Err(e) => {
            return Err(DomainError::from_validation(&e));
        },
    };
    Ok(User::new(subject, em))
}

/// Service for managing users on top of a user store.
pub struct UserService<R: UserRepository> {
    pub user_repository: R,
}

impl<R: UserRepository> UserService<R> {
    /// Wraps the given store.
    pub fn new(user_repository: R) -> (r: Self)
        ensures
            r.user_repository == user_repository,
    {
        UserService { user_repository }
    }

    /// Resolves an authenticated `(subject, email)` claim to one canonical
    /// user, creating or relinking as needed; see [`resolve_ok_post`] and
    /// [`resolve_err_post`] for exactly what each outcome means. On an
    /// infallible store, the operation fails exactly when nothing matched
    /// and the email is malformed.
    pub fn find_or_create(&mut self, subject: &str, email: &str) -> (r: Result<User, DomainError>)
        requires
            old(self).user_repository.wf(),
        ensures
            final(self).user_repository.wf(),
            final(self).user_repository.infallible() == old(self).user_repository.infallible(),
            r matches Ok(u) ==> resolve_ok_post(
                old(self).user_repository.store(),
                subject@,
                email@,
                u@,
                final(self).user_repository.store(),
            ),
            r matches Err(e) ==> resolve_err_post(
                old(self).user_repository.store(),
                subject@,
                email@,
                e,
                final(self).user_repository.store(),
            ),
            old(self).user_repository.infallible() ==> (r is Err <==> subject_absent(
                old(self).user_repository.store(),
                subject@,
            ) && email_absent(old(self).user_repository.store(), email@) && !valid_email(
                normalize_email(email@),
            )),
            old(self).user_repository.infallible() ==> (r matches Err(e) ==> e
                matches DomainError::ValidationError(_)),
    {
        match self.user_repository.find_by_subject(subject) {
            Err(e) => {
                return Err(e);
            },
            Ok(Some(user)) => {
                return Ok(user);
            },
            Ok(None) => {},
        }
        match self.user_repository.find_by_email(email) {
            Err(e) => {
                return Err(e);
            },
            Ok(Some(user)) => {
                let (user, needs_save) = apply_subject_link(user, subject);
                proof {
                    // relinking keeps the stored created_at, so the upsert
                    // writes the linked record exactly
                    assert(upserted(self.user_repository.store(), user@) == user@);
                }
                if needs_save {
                    match self.user_repository.save(&user) {
                        Err(e) => {
                            return Err(e);
                        },
                        Ok(()) => {},
                    }
                }
                return Ok(user);
            },
            Ok(None) => {},
        }
        let user = match create_user_for(subject, email) {
            Err(e) => {
                return Err(e);
            },
            Ok(u) => u,
        };
        match self.user_repository.save(&user) {
            Err(e) => {
                return Err(e);
            },
            Ok(()) => {},
        }
        Ok(user)
    }

    /// Looks a user up by id; fails with `UserNotFound` exactly when (on an
    /// infallible store) the id is absent.
    pub fn find_by_id(&self, id: u128) -> (r: Result<User, DomainError>)
        requires
            self.user_repository.wf(),
        ensures
            r matches Ok(u) ==> self.user_repository.store().contains_key(id) && u@
                == self.user_repository.store()[id],
            r matches Err(e) ==> e matches DomainError::UserNotFound(_) || e
                matches DomainError::RepositoryError(_),
            r matches Err(DomainError::UserNotFound(i)) ==> i == id
                && !self.user_repository.store().contains_key(id),
            self.user_repository.infallible() ==> (r is Ok
                <==> self.user_repository.store().contains_key(id)),
            self.user_repository.infallible() && !self.user_repository.store().contains_key(id)
                ==> (r matches Err(DomainError::UserNotFound(i)) && i == id),
    {
        match self.user_repository.find_by_id(id) {
            Err(e) => Err(e),
            Ok(Some(u)) => Ok(u),
            Ok(None) => Err(DomainError::UserNotFound(id)),
        }
    }

    /// Pass-through lookup by email; no business logic.
    pub fn find_by_email(&self, email: &str) -> (r: Result<Option<User>, DomainError>)
        requires
            self.user_repository.wf(),
        ensures
            r matches Ok(Some(u)) ==> self.user_repository.store().contains_key(u@.id)
                && self.user_repository.store()[u@.id] == u@ && u@.email == email@,
            r matches Ok(None) ==> email_absent(self.user_repository.store(), email@),
            r matches Err(e) ==> e matches DomainError::RepositoryError(_),
            self.user_repository.infallible() ==> r is Ok,
    {
        self.user_repository.find_by_email(email)
    }
}

/// Resolution is idempotent on an exact subject match: when at most one
/// record carries the subject, resolving the same `(subject, email)` twice
/// in a row returns the same user id both times, and the second resolution
/// writes nothing.
pub proof fn lemma_resolve_idempotent(
    st0: Map<u128, UserView>,
    subject: Seq<char>,
    email: Seq<char>,
    u1: UserView,
    st1: Map<u128, UserView>,
    u2: UserView,
    st2: Map<u128, UserView>,
)
    requires
        subject_unique(st0, subject),
        resolve_ok_post(st0, subject, email, u1, st1),
        resolve_ok_post(st1, subject, email, u2, st2),
    ensures
        u2.id == u1.id,
        st2 == st1,
{
    // whichever step the first call took, it left a record carrying the
    // subject under u1's id
    assert(st1.contains_key(u1.id) && st1[u1.id].subject == subject);
    assert(!subject_absent(st1, subject));
    // so the second call took the stable subject path
    assert(st2 == st1);
    assert(st1.contains_key(u2.id) && st1[u2.id] == u2 && u2.subject == subject);
    if subject_absent(st0, subject) {
        // the first call wrote the only matching record, at u1's id
        if u2.id != u1.id {
            assert(st0.contains_key(u2.id) && st0[u2.id] == u2);
        }
    } else {
        // both results sit in the unchanged store; uniqueness pins the key
        assert(st0.contains_key(u2.id) && st0[u2.id].subject == subject);
        assert(st0.contains_key(u1.id) && st0[u1.id].subject == subject);
    }
    assert(u2.id == u1.id);
}

/// Account linking across two resolutions: from a store with no record for
/// either subject and none for the (already-normalized) email, resolving
/// under `s1` and then under `s2` returns the same user id both times, and
/// afterwards that user's stored subject is `s2`.
pub proof fn lemma_resolve_relinks_subject(
    st0: Map<u128, UserView>,
    s1: Seq<char>,
    s2: Seq<char>,
    email: Seq<char>,
    u1: UserView,
    st1: Map<u128, UserView>,
    u2: UserView,
    st2: Map<u128, UserView>,
)
    requires
        s1 != s2,
        subject_absent(st0, s1),
        subject_absent(st0, s2),
        email_absent(st0, email),
        normalize_email(email) == email,
        resolve_ok_post(st0, s1, email, u1, st1),
        resolve_ok_post(st1, s2, email, u2, st2),
    ensures
        u2.id == u1.id,
        u2.subject == s2,
        st2.contains_key(u1.id) && st2[u1.id].subject == s2,
{
    // the first call reached the creation step; the stored record keeps
    // u1's id, subject and email
    let w1 = upserted(st0, u1);
    assert(u1.subject == s1 && u1.email == email && st1 == st0.insert(u1.id, w1));
    assert(w1.id == u1.id && w1.subject == s1 && w1.email == email);
    // the second call finds no subject match but does find the email
    assert(subject_absent(st1, s2));
    assert(st1.contains_key(u1.id) && st1[u1.id].email == email);
    assert(!email_absent(st1, email));
    // the email match can only be the record the first call created
    assert(st1.contains_key(u2.id) && st1[u2.id].email == email);
    if u2.id != u1.id {
        assert(st0.contains_key(u2.id) && st0[u2.id].email == email);
    }
    assert(u2.id == u1.id);
    assert(u2 == st1[u1.id].with_subject(s2));
    assert(st2 == st1.insert(u1.id, u2));
}

} // verus!
