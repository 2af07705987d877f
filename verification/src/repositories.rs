//! The user-store port: five operations over an abstract store of user
//! records keyed by id. Adapters provide the storage; callers reason over
//! the `store()` map.

use vstd::prelude::*;

use crate::entities::{User, UserView};
use crate::errors::DomainError;

verus! {

/// No record in the store carries this subject.
pub open spec fn subject_absent(st: Map<u128, UserView>, subject: Seq<char>) -> bool {
    forall|k: u128| st.contains_key(k) ==> st[k].subject != subject
}

/// No record in the store carries this email.
pub open spec fn email_absent(st: Map<u128, UserView>, email: Seq<char>) -> bool {
    forall|k: u128| st.contains_key(k) ==> st[k].email != email
}

/// The record an upsert stores for `u`: a new id takes `u` as it is; an
/// existing id keeps its stored `created_at` — set once at construction,
/// never mutated — and takes everything else from `u`.
pub open spec fn upserted(st: Map<u128, UserView>, u: UserView) -> UserView {
    if st.contains_key(u.id) {
        UserView { created_at: st[u.id].created_at, ..u }
    } else {
        u
    }
}

/// At most one record in the store carries this subject.
pub open spec fn subject_unique(st: Map<u128, UserView>, subject: Seq<char>) -> bool {
    forall|k1: u128, k2: u128|
        st.contains_key(k1) && st.contains_key(k2) && st[k1].subject == subject
            && st[k2].subject == subject ==> k1 == k2
}

/// Repository port for user persistence. `save` is an upsert keyed by id;
/// lookups are exact matches. Any operation may fail with an opaque
/// [`DomainError::RepositoryError`]; on a store whose `infallible()` holds
/// (such as the in-memory adapter) every operation succeeds.
pub trait UserRepository: Sized {
    /// The records held, keyed by user id.
    spec fn store(&self) -> Map<u128, UserView>;

    /// Whether this store's operations are free of storage failures.
    spec fn infallible(&self) -> bool;

    /// Whether this store is in a usable state (adapter-specific).
    spec fn wf(&self) -> bool;

    /// Find a user by their id.
    fn find_by_id(&self, id: u128) -> (r: Result<Option<User>, DomainError>)
        requires
            self.wf(),
        ensures
            r matches Ok(Some(u)) ==> self.store().contains_key(id) && u@ == self.store()[id],
            r matches Ok(None) ==> !self.store().contains_key(id),
            r matches Err(e) ==> e matches DomainError::RepositoryError(_),
            self.infallible() ==> r is Ok,
    ;

    /// Find a user by their authentication subject.
    fn find_by_subject(&self, subject: &str) -> (r: Result<Option<User>, DomainError>)
        requires
            self.wf(),
        ensures
            r matches Ok(Some(u)) ==> self.store().contains_key(u@.id) && self.store()[u@.id]
                == u@ && u@.subject == subject@,
            r matches Ok(None) ==> subject_absent(self.store(), subject@),
            r matches Err(e) ==> e matches DomainError::RepositoryError(_),
            self.infallible() ==> r is Ok,
    ;

    /// Find a user by their email.
    fn find_by_email(&self, email: &str) -> (r: Result<Option<User>, DomainError>)
        requires
            self.wf(),
        ensures
            r matches Ok(Some(u)) ==> self.store().contains_key(u@.id) && self.store()[u@.id]
                == u@ && u@.email == email@,
            r matches Ok(None) ==> email_absent(self.store(), email@),
            r matches Err(e) ==> e matches DomainError::RepositoryError(_),
            self.infallible() ==> r is Ok,
    ;

    /// Save a new user or update an existing one (upsert keyed by id). An
    /// update keeps the stored record's `created_at`: see [`upserted`].
    fn save(&mut self, user: &User) -> (r: Result<(), DomainError>)
        requires
            old(self).wf(),
        ensures
            final(self).wf(),
            final(self).infallible() == old(self).infallible(),
            r is Ok ==> final(self).store() == old(self).store().insert(
                user@.id,
                upserted(old(self).store(), user@),
            ),
            r matches Err(e) ==> e matches DomainError::RepositoryError(_) && final(self).store()
                == old(self).store(),
            old(self).infallible() ==> r is Ok,
    ;

    /// Delete a user by their id; deleting an absent id is not an error.
    fn delete(&mut self, id: u128) -> (r: Result<(), DomainError>)
        requires
            old(self).wf(),
        ensures
            final(self).wf(),
            final(self).infallible() == old(self).infallible(),
            r is Ok ==> final(self).store() == old(self).store().remove(id),
            r matches Err(e) ==> e matches DomainError::RepositoryError(_) && final(self).store()
                == old(self).store(),
            old(self).infallible() ==> r is Ok,
    ;
}

/// Deleting a user by id removes exactly that record, so a lookup of the id
/// in the resulting store finds nothing: `find_by_id` after `delete` answers
/// "not found".
pub proof fn lemma_delete_then_find_by_id(st: Map<u128, UserView>, id: u128)
    ensures
        !st.remove(id).contains_key(id),
        forall|k: u128| k != id ==> st.remove(id).contains_key(k) == st.contains_key(k),
{
}

} // verus!
