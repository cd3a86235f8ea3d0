//! The session record: which account a session key authenticates, and
//! when the session was created, refreshed, and times out.

use vstd::prelude::*;

verus! {

/// One login session. Times are seconds since an epoch; the session key
/// is the table's unique key.
#[derive(Debug)]
pub struct Session {
    pub session_key: Vec<u8>,
    pub user: u32,
    pub created_on: u64,
    pub last_refreshed: u64,
    pub timeout_duration_seconds: u32,
}

/// The two records hold the same session: equal keys (by bytes) and
/// equal fields.
pub open spec fn session_eq(a: Session, b: Session) -> bool {
    &&& a.session_key@ == b.session_key@
    &&& a.user == b.user
    &&& a.created_on == b.created_on
    &&& a.last_refreshed == b.last_refreshed
    &&& a.timeout_duration_seconds == b.timeout_duration_seconds
}

/// Copies a byte string.
pub fn clone_bytes(v: &Vec<u8>) -> (r: Vec<u8>)
    ensures
        r@ == v@,
{
    let mut out: Vec<u8> = Vec::new();
    let mut i: usize = 0;
    while i < v.len()
        invariant
            i <= v@.len(),
            out@ == v@.subrange(0, i as int),
        decreases v@.len() - i,
    {
        out.push(v[i]);
        proof {
            assert(out@ =~= v@.subrange(0, i + 1));
        }
        i = i + 1;
    }
    proof {
        assert(out@ =~= v@);
    }
    out
}

impl Clone for Session {
    fn clone(&self) -> (r: Self)
        ensures
            session_eq(r, *self),
    {
        Session {
            session_key: clone_bytes(&self.session_key),
            user: self.user,
            created_on: self.created_on,
            last_refreshed: self.last_refreshed,
            timeout_duration_seconds: self.timeout_duration_seconds,
        }
    }
}

} // verus!
