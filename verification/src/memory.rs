//! In-memory adapter for the user-store port: a vector of records with
//! unique ids, whose abstract store is the map from id to record.

use vstd::prelude::*;

use crate::entities::{User, UserView};
use crate::errors::DomainError;
use crate::repositories::{upserted, UserRepository};
use crate::text::str_eq;

verus! {

/// The view of each record in the sequence.
pub open spec fn views(s: Seq<User>) -> Seq<UserView> {
    s.map_values(|u: User| u@)
}

/// The records as a map keyed by id; a later record with the same id shadows
/// an earlier one, as an upsert would.
pub open spec fn map_of(s: Seq<UserView>) -> Map<u128, UserView>
    decreases s.len(),
{
    if s.len() == 0 {
        Map::empty()
    } else {
        map_of(s.drop_last()).insert(s.last().id, s.last())
    }
}

/// Each id occurs at most once.
pub open spec fn unique_ids(s: Seq<UserView>) -> bool {
    forall|i: int, j: int| 0 <= i < j < s.len() ==> s[i].id != s[j].id
}

proof fn lemma_map_of_contains(s: Seq<UserView>, k: u128)
    ensures
        map_of(s).contains_key(k) <==> exists|i: int| 0 <= i < s.len() && s[i].id == k,
    decreases s.len(),
{
    if s.len() > 0 {
        let t = s.drop_last();
        lemma_map_of_contains(t, k);
        if s.last().id == k {
            assert(s[s.len() - 1].id == k);
        } else {
            if map_of(s).contains_key(k) {
                let i = choose|i: int| 0 <= i < t.len() && t[i].id == k;
                assert(s[i].id == k);
            }
            if exists|i: int| 0 <= i < s.len() && s[i].id == k {
                let i = choose|i: int| 0 <= i < s.len() && s[i].id == k;
                assert(t[i].id == k);
            }
        }
    }
}

proof fn lemma_map_of_index(s: Seq<UserView>, i: int)
    requires
        unique_ids(s),
        0 <= i < s.len(),
    ensures
        map_of(s).contains_key(s[i].id),
        map_of(s)[s[i].id] == s[i],
    decreases s.len(),
{
    let t = s.drop_last();
    if i < s.len() - 1 {
        assert(unique_ids(t));
        lemma_map_of_index(t, i);
        assert(t[i] == s[i]);
        assert(s[i].id != s.last().id);
    }
}

proof fn lemma_map_of_update(s: Seq<UserView>, i: int, u: UserView)
    requires
        unique_ids(s),
        0 <= i < s.len(),
        u.id == s[i].id,
    ensures
        map_of(s.update(i, u)) =~= map_of(s).insert(u.id, u),
        unique_ids(s.update(i, u)),
    decreases s.len(),
{
    let t = s.drop_last();
    if i == s.len() - 1 {
        assert(s.update(i, u).drop_last() =~= t);
        assert(s.update(i, u).last() == u);
        assert(map_of(s.update(i, u)) =~= map_of(s).insert(u.id, u));
    } else {
        assert(unique_ids(t));
        lemma_map_of_update(t, i, u);
        assert(s.update(i, u).drop_last() =~= t.update(i, u));
        assert(s.update(i, u).last() == s.last());
        assert(u.id != s.last().id);
        assert(map_of(s.update(i, u)) =~= map_of(s).insert(u.id, u));
    }
}

proof fn lemma_map_of_push(s: Seq<UserView>, u: UserView)
    ensures
        map_of(s.push(u)) =~= map_of(s).insert(u.id, u),
{
    assert(s.push(u).drop_last() =~= s);
    assert(s.push(u).last() == u);
}

proof fn lemma_map_of_remove(s: Seq<UserView>, i: int)
    requires
        unique_ids(s),
        0 <= i < s.len(),
    ensures
        map_of(s.remove(i)) =~= map_of(s).remove(s[i].id),
        unique_ids(s.remove(i)),
    decreases s.len(),
{
    let t = s.drop_last();
    if i == s.len() - 1 {
        assert(s.remove(i) =~= t);
        lemma_map_of_contains(t, s[i].id);
        assert(forall|j: int| 0 <= j < t.len() ==> t[j].id != s[i].id);
        assert(!map_of(t).contains_key(s[i].id));
        assert(map_of(s.remove(i)) =~= map_of(s).remove(s[i].id));
    } else {
        assert(unique_ids(t));
        lemma_map_of_remove(t, i);
        assert(s.remove(i).drop_last() =~= t.remove(i));
        assert(s.remove(i).last() == s.last());
        assert(t[i] == s[i]);
        assert(s[i].id != s.last().id);
        assert(map_of(s.remove(i)) =~= map_of(s).remove(s[i].id));
    }
}

/// In-memory user store: the test- and reference-adapter for the port.
pub struct InMemoryUserRepository {
    users: Vec<User>,
}

impl InMemoryUserRepository {
    /// An empty store.
    pub fn new() -> (r: Self)
        ensures
            r.wf(),
            r.infallible(),
            r.store() == Map::<u128, UserView>::empty(),
    {
        let r = InMemoryUserRepository { users: Vec::new() };
        proof {
            assert(views(r.users@) =~= Seq::<UserView>::empty());
        }
        r
    }

    /// The position of the record with this id, if any.
    fn index_of(&self, id: u128) -> (r: Option<usize>)
        ensures
            r matches Some(i) ==> i < self.users@.len() && self.users@[i as int]@.id == id,
            r is None ==> forall|j: int| 0 <= j < self.users@.len() ==> self.users@[j]@.id != id,
    {
        let n = self.users.len();
        let mut i: usize = 0;
        while i < n
            invariant
                0 <= i <= n,
                n == self.users@.len(),
                forall|j: int| 0 <= j < i ==> self.users@[j]@.id != id,
            decreases n - i,
        {
            if self.users[i].id == id {
                return Some(i);
            }
            i = i + 1;
        }
        None
    }
}

impl UserRepository for InMemoryUserRepository {
    closed spec fn store(&self) -> Map<u128, UserView> {
        map_of(views(self.users@))
    }

    closed spec fn infallible(&self) -> bool {
        true
    }

    closed spec fn wf(&self) -> bool {
        unique_ids(views(self.users@))
    }

    fn find_by_id(&self, id: u128) -> (r: Result<Option<User>, DomainError>) {
        match self.index_of(id) {
            Some(i) => {
                let u = self.users[i].clone();
                proof {
                    lemma_map_of_index(views(self.users@), i as int);
                }
                Ok(Some(u))
            },
            None => {
                proof {
                    lemma_map_of_contains(views(self.users@), id);
                }
                Ok(None)
            },
        }
    }

    fn find_by_subject(&self, subject: &str) -> (r: Result<Option<User>, DomainError>) {
        let n = self.users.len();
        let mut i: usize = 0;
        while i < n
            invariant
                0 <= i <= n,
                n == self.users@.len(),
                unique_ids(views(self.users@)),
                forall|j: int| 0 <= j < i ==> self.users@[j]@.subject != subject@,
            decreases n - i,
        {
            if str_eq(self.users[i].subject.as_str(), subject) {
                let u = self.users[i].clone();
                proof {
                    lemma_map_of_index(views(self.users@), i as int);
                }
                return Ok(Some(u));
            }
            i = i + 1;
        }
        proof {
            assert forall|k: u128| map_of(views(self.users@)).contains_key(k) implies map_of(
                views(self.users@),
            )[k].subject != subject@ by {
                lemma_map_of_contains(views(self.users@), k);
                let idx = choose|idx: int|
                    0 <= idx < views(self.users@).len() && views(self.users@)[idx].id == k;
                lemma_map_of_index(views(self.users@), idx);
            }
        }
        Ok(None)
    }

    fn find_by_email(&self, email: &str) -> (r: Result<Option<User>, DomainError>) {
        let n = self.users.len();
        let mut i: usize = 0;
        while i < n
            invariant
                0 <= i <= n,
                n == self.users@.len(),
                unique_ids(views(self.users@)),
                forall|j: int| 0 <= j < i ==> self.users@[j]@.email != email@,
            decreases n - i,
        {
            if str_eq(self.users[i].email.as_str(), email) {
                let u = self.users[i].clone();
                proof {
                    lemma_map_of_index(views(self.users@), i as int);
                }
                return Ok(Some(u));
            }
            i = i + 1;
        }
        proof {
            assert forall|k: u128| map_of(views(self.users@)).contains_key(k) implies map_of(
                views(self.users@),
            )[k].email != email@ by {
                lemma_map_of_contains(views(self.users@), k);
                let idx = choose|idx: int|
                    0 <= idx < views(self.users@).len() && views(self.users@)[idx].id == k;
                lemma_map_of_index(views(self.users@), idx);
            }
        }
        Ok(None)
    }

    fn save(&mut self, user: &User) -> (r: Result<(), DomainError>) {
        match self.index_of(user.id) {
            Some(i) => {
                // an update keeps the stored record's created_at
                let mut stored = user.clone();
                stored.created_at = self.users[i].created_at;
                proof {
                    lemma_map_of_index(views(self.users@), i as int);
                    lemma_map_of_update(views(self.users@), i as int, stored@);
                    assert(stored@ == upserted(map_of(views(self.users@)), user@));
                }
                self.users.set(i, stored);
                proof {
                    assert(views(self.users@) =~= views(old(self).users@).update(
                        i as int,
                        upserted(map_of(views(old(self).users@)), user@),
                    ));
                }
                Ok(())
            },
            None => {
                proof {
                    lemma_map_of_contains(views(self.users@), user@.id);
                    assert(upserted(map_of(views(self.users@)), user@) == user@);
                    lemma_map_of_push(views(self.users@), user@);
                }
                self.users.push(user.clone());
                proof {
                    assert(views(self.users@) =~= views(old(self).users@).push(user@));
                    assert(unique_ids(views(self.users@)));
                }
                Ok(())
            },
        }
    }

    fn delete(&mut self, id: u128) -> (r: Result<(), DomainError>) {
        match self.index_of(id) {
            Some(i) => {
                proof {
                    lemma_map_of_remove(views(self.users@), i as int);
                }
                let _removed = self.users.remove(i);
                proof {
                    assert(views(self.users@) =~= views(old(self).users@).remove(i as int));
                }
                Ok(())
            },
            None => {
                proof {
                    lemma_map_of_contains(views(self.users@), id);
                    assert(map_of(views(self.users@)).remove(id) =~= map_of(views(self.users@)));
                }
                Ok(())
            },
        }
    }
}

} // verus!
