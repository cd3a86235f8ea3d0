//! The in-memory backing store's shared pieces: sort directions and the
//! session table keyed by its unique session key.

use vstd::prelude::*;

use crate::error::Error;
use crate::models::{session_eq, Session};

verus! {

/// The direction one sort key orders by.
#[derive(Clone, Copy, Debug, PartialEq, Eq, Structural)]
pub enum SortDirection {
    Ascending,
    Descending,
}

/// The session table: one row per session key.
pub struct Database {
    pub sessions: Vec<Session>,
}

/// Some stored session carries this key.
pub open spec fn session_key_taken(sessions: Seq<Session>, key: Seq<u8>) -> bool {
    exists|i: int| 0 <= i < sessions.len() && #[trigger] sessions[i].session_key@ == key
}

/// The first position at or after `n` whose session carries the key, or
/// the table length when none does.
pub open spec fn first_session_from(sessions: Seq<Session>, key: Seq<u8>, n: int) -> int
    decreases sessions.len() - n when 0 <= n <= sessions.len()
{
    if n >= sessions.len() {
        n
    } else if sessions[n].session_key@ == key {
        n
    } else {
        first_session_from(sessions, key, n + 1)
    }
}

/// Whether two byte strings hold the same bytes.
pub fn bytes_eq(a: &Vec<u8>, b: &Vec<u8>) -> (r: bool)
    ensures
        r == (a@ == b@),
{
    if a.len() != b.len() {
        assert(a@ != b@);
        return false;
    }
    let mut i: usize = 0;
    while i < a.len()
        invariant
            a@.len() == b@.len(),
            i <= a@.len(),
            forall|k: int| 0 <= k < i ==> a@[k] == b@[k],
        decreases a@.len() - i,
    {
        if a[i] != b[i] {
            return false;
        }
        i = i + 1;
    }
    assert(a@ =~= b@);
    true
}

impl Database {
    /// An empty session table.
    pub fn new() -> (r: Self)
        ensures
            r.sessions@ =~= Seq::<Session>::empty(),
    {
        Database { sessions: Vec::new() }
    }

    /// Stores a session; `DuplicateEntry` exactly when the key, the
    /// table's primary key, is already present.
    pub fn insert_session(&mut self, session: &Session) -> (r: Result<(), Error>)
        ensures
            match r {
                Ok(()) => ({
                    &&& !session_key_taken(old(self).sessions@, session.session_key@)
                    &&& final(self).sessions@.len() == old(self).sessions@.len() + 1
                    &&& final(self).sessions@.drop_last() == old(self).sessions@
                    &&& session_eq(final(self).sessions@.last(), *session)
                }),
                Err(e) => e == Error::DuplicateEntry && session_key_taken(
                    old(self).sessions@,
                    session.session_key@,
                ) && final(self).sessions@ == old(self).sessions@,
            },
    {
        let mut i: usize = 0;
        while i < self.sessions.len()
            invariant
                i <= self.sessions@.len(),
                forall|k: int|
                    0 <= k < i ==> #[trigger] self.sessions@[k].session_key@
                        != session.session_key@,
            decreases self.sessions@.len() - i,
        {
            if bytes_eq(&self.sessions[i].session_key, &session.session_key) {
                return Err(Error::DuplicateEntry);
            }
            i = i + 1;
        }
        self.sessions.push(session.clone());
        proof {
            assert(self.sessions@.drop_last() =~= old(self).sessions@);
        }
        Ok(())
    }

    /// The session stored under `by_key`; `EntryNotFound` exactly when no
    /// session carries that key.
    pub fn get_session_by_key(&self, by_key: &Vec<u8>) -> (r: Result<Session, Error>)
        ensures
            match r {
                Ok(s) => ({
                    let i = first_session_from(self.sessions@, by_key@, 0);
                    &&& i < self.sessions@.len()
                    &&& session_eq(s, self.sessions@[i])
                    &&& s.session_key@ == by_key@
                }),
                Err(e) => e == Error::EntryNotFound && first_session_from(self.sessions@, by_key@, 0)
                    == self.sessions@.len() && !session_key_taken(self.sessions@, by_key@),
            },
    {
        let mut i: usize = 0;
        while i < self.sessions.len()
            invariant
                i <= self.sessions@.len(),
                first_session_from(self.sessions@, by_key@, 0) == first_session_from(
                    self.sessions@,
                    by_key@,
                    i as int,
                ),
                forall|k: int| 0 <= k < i ==> #[trigger] self.sessions@[k].session_key@ != by_key@,
            decreases self.sessions@.len() - i,
        {
            if bytes_eq(&self.sessions[i].session_key, by_key) {
                proof {
                    assert(first_session_from(self.sessions@, by_key@, i as int) == i as int);
                }
                return Ok(self.sessions[i].clone());
            }
            proof {
                assert(first_session_from(self.sessions@, by_key@, i as int) == first_session_from(
                    self.sessions@,
                    by_key@,
                    i + 1,
                ));
            }
            i = i + 1;
        }
        Err(Error::EntryNotFound)
    }
}

} // verus!
