//! The revision store: append-only storage of entity snapshots keyed by
//! (identity, revision marker), with a latest-wins "current" view.
//!
//! Every write appends a revision; nothing is ever overwritten or removed.
//! A row is current exactly when no sibling row with the same identity is
//! strictly newer — newer meaning a later marker, or the same marker but a
//! later insertion (the deterministic tiebreaker) — and the row itself is
//! not marked deleted.

use vstd::prelude::*;

use crate::error::Error;

verus! {

/// One stored snapshot: a stable identity, a revision marker, the deletion
/// flag, and the entity payload.
pub struct Revision<P> {
    pub identity: u32,
    pub marker: u64,
    pub deleted: bool,
    pub payload: P,
}

/// An append-only table of revisions.
pub struct RevisionStore<P> {
    pub rows: Vec<Revision<P>>,
}

impl<P> RevisionStore<P> {
    /// Row `j` supersedes row `i`: same identity, and strictly newer —
    /// a later marker, or the same marker but inserted later.
    pub open spec fn supersedes(rows: Seq<Revision<P>>, j: int, i: int) -> bool {
        rows[j].identity == rows[i].identity && (rows[j].marker > rows[i].marker || (rows[j].marker
            == rows[i].marker && j > i))
    }

    /// Row `i` is the latest revision of its identity.
    pub open spec fn latest_at(self, i: int) -> bool {
        0 <= i < self.rows@.len() && forall|j: int|
            0 <= j < self.rows@.len() ==> !#[trigger] Self::supersedes(self.rows@, j, i)
    }

    /// Row `i` is in the current view: latest for its identity and not deleted.
    pub open spec fn current_at(self, i: int) -> bool {
        self.latest_at(i) && !self.rows@[i].deleted
    }

    /// Some revision, current or not, carries this identity.
    pub open spec fn has_identity(self, id: u32) -> bool {
        exists|i: int| 0 <= i < self.rows@.len() && #[trigger] self.rows@[i].identity == id
    }

    /// Some current row carries this identity.
    pub open spec fn has_current(self, id: u32) -> bool {
        exists|i: int| #[trigger] self.current_at(i) && self.rows@[i].identity == id
    }

    /// The current-view positions among the first `n` rows, in order.
    pub open spec fn current_positions_upto(self, n: nat) -> Seq<usize> {
        Seq::new(n, |i: int| i as usize).filter(|u: usize| self.current_at(u as int))
    }

    /// The positions of the current view's rows, in insertion order.
    pub open spec fn current_positions(self) -> Seq<usize> {
        self.current_positions_upto(self.rows@.len())
    }

    /// The positions among the first `n` rows that carry `id`, in order.
    pub open spec fn history_positions_upto(self, id: u32, n: nat) -> Seq<usize> {
        Seq::new(n, |i: int| i as usize).filter(|u: usize| self.rows@[u as int].identity == id)
    }

    /// The positions of every revision of `id`, in insertion order.
    pub open spec fn history_positions(self, id: u32) -> Seq<usize> {
        self.history_positions_upto(id, self.rows@.len())
    }

    /// The position of the one current revision of `id`, meaningful when
    /// `has_current(id)` holds.
    pub open spec fn current_index(self, id: u32) -> int {
        choose|i: int| self.current_at(i) && self.rows@[i].identity == id
    }

    /// The position of the one latest revision of `id`, deleted or not,
    /// meaningful when `has_identity(id)` holds.
    pub open spec fn latest_index(self, id: u32) -> int {
        choose|i: int| self.latest_at(i) && self.rows@[i].identity == id
    }

    /// A latest row of identity `id` sits at `latest_index(id)` and
    /// nowhere else.
    pub proof fn lemma_latest_index(self, id: u32, i: int)
        requires
            self.latest_at(i),
            self.rows@[i].identity == id,
        ensures
            self.latest_index(id) == i,
    {
        let j = self.latest_index(id);
        self.lemma_latest_unique(i, j);
    }

    /// A current row of identity `id` sits at `current_index(id)` and
    /// nowhere else.
    pub proof fn lemma_current_index(self, id: u32, i: int)
        requires
            self.current_at(i),
            self.rows@[i].identity == id,
        ensures
            self.current_index(id) == i,
            self.has_current(id),
    {
        assert(self.has_current(id));
        let j = self.current_index(id);
        self.lemma_latest_unique(i, j);
    }

    /// `self` is `prior` with one revision of a freshly allocated identity
    /// appended: the usual outcome of creating an entity.
    pub open spec fn created_fresh(self, prior: Self, marker: u64, payload: P) -> bool {
        &&& self.rows@.len() == prior.rows@.len() + 1
        &&& self.rows@ == prior.rows@.push(
            Revision { identity: self.rows@.last().identity, marker, deleted: false, payload },
        )
        &&& !prior.has_identity(self.rows@.last().identity)
    }

    /// `self` is `prior` with one revision of the existing identity `id`
    /// appended: the usual outcome of updating or deleting an entity.
    pub open spec fn appended(self, prior: Self, id: u32, marker: u64, deleted: bool, payload: P) -> bool {
        &&& prior.has_identity(id)
        &&& self.rows@ == prior.rows@.push(Revision { identity: id, marker, deleted, payload })
    }

    /// A freshly created entity's one revision is in the current view.
    pub proof fn lemma_created_fresh_current(self, prior: Self, marker: u64, payload: P)
        requires
            self.created_fresh(prior, marker, payload),
        ensures
            self.current_at(self.rows@.len() - 1),
    {
        let n = self.rows@.len() - 1;
        assert forall|j: int| 0 <= j < self.rows@.len() implies !#[trigger] Self::supersedes(
            self.rows@,
            j,
            n,
        ) by {
            if j < n && self.rows@[j].identity == self.rows@[n].identity {
                assert(prior.rows@[j].identity == self.rows@[n].identity);
            }
        }
    }

    /// The largest identity any revision carries, zero when empty.
    pub open spec fn max_identity(rows: Seq<Revision<P>>) -> int
        decreases rows.len(),
    {
        if rows.len() == 0 {
            0
        } else if rows.last().identity as int >= Self::max_identity(rows.drop_last()) {
            rows.last().identity as int
        } else {
            Self::max_identity(rows.drop_last())
        }
    }

    /// At most one row per identity is latest.
    pub proof fn lemma_latest_unique(self, i: int, j: int)
        requires
            self.latest_at(i),
            self.latest_at(j),
            self.rows@[i].identity == self.rows@[j].identity,
        ensures
            i == j,
    {
        if i != j {
            if self.rows@[i].marker < self.rows@[j].marker {
                assert(Self::supersedes(self.rows@, j, i));
            } else if self.rows@[i].marker > self.rows@[j].marker {
                assert(Self::supersedes(self.rows@, i, j));
            } else if i < j {
                assert(Self::supersedes(self.rows@, j, i));
            } else {
                assert(Self::supersedes(self.rows@, i, j));
            }
        }
    }

    /// Every identity in the store is bounded by the maximum.
    proof fn lemma_max_identity_bounds(rows: Seq<Revision<P>>)
        ensures
            forall|i: int|
                0 <= i < rows.len() ==> #[trigger] rows[i].identity as int <= Self::max_identity(
                    rows,
                ),
        decreases rows.len(),
    {
        if rows.len() > 0 {
            Self::lemma_max_identity_bounds(rows.drop_last());
            assert forall|i: int| 0 <= i < rows.len() implies #[trigger] rows[i].identity as int
                <= Self::max_identity(rows) by {
                if i < rows.len() - 1 {
                    assert(rows.drop_last()[i] == rows[i]);
                }
            }
        }
    }

    /// Latest-wins: when an identity's revisions carry strictly increasing
    /// markers in insertion order, the last inserted revision is the one
    /// latest revision of that identity, and the identity is in the current
    /// view exactly when that revision is not marked deleted.
    pub proof fn lemma_latest_wins(self, id: u32, n: int)
        requires
            0 <= n < self.rows@.len(),
            self.rows@[n].identity == id,
            forall|j: int|
                0 <= j < self.rows@.len() && #[trigger] self.rows@[j].identity == id ==> j <= n,
            forall|i: int, j: int|
                0 <= i < j < self.rows@.len() && #[trigger] self.rows@[i].identity == id
                    && #[trigger] self.rows@[j].identity == id ==> self.rows@[i].marker
                    < self.rows@[j].marker,
        ensures
            self.latest_at(n),
            forall|j: int|
                0 <= j < self.rows@.len() && #[trigger] self.rows@[j].identity == id && j != n
                    ==> !self.latest_at(j),
            self.has_current(id) <==> !self.rows@[n].deleted,
    {
        assert forall|j: int| 0 <= j < self.rows@.len() implies !#[trigger] Self::supersedes(
            self.rows@,
            j,
            n,
        ) by {
            if self.rows@[j].identity == id && j != n {
                assert(j <= n);
            }
        }
        assert forall|j: int|
            0 <= j < self.rows@.len() && #[trigger] self.rows@[j].identity == id && j != n
            implies !self.latest_at(j) by {
            assert(Self::supersedes(self.rows@, n, j));
        }
        if !self.rows@[n].deleted {
            assert(self.current_at(n));
            assert(self.has_current(id));
        } else {
            if self.has_current(id) {
                let i = choose|i: int| self.current_at(i) && self.rows@[i].identity == id;
                self.lemma_latest_unique(i, n);
            }
        }
    }

    /// Marking an identity deleted hides it: after appending a deleted
    /// revision whose marker is no older than every earlier revision of the
    /// identity, no current row carries the identity, while the history —
    /// every earlier revision — is still in the store, unchanged.
    pub proof fn lemma_delete_hides_identity(
        self,
        prior: Self,
        id: u32,
        marker: u64,
        payload: P,
    )
        requires
            self.rows@ == prior.rows@.push(
                Revision { identity: id, marker, deleted: true, payload },
            ),
            forall|j: int|
                0 <= j < prior.rows@.len() && #[trigger] prior.rows@[j].identity == id
                    ==> prior.rows@[j].marker <= marker,
        ensures
            !self.has_current(id),
            self.rows@.len() == prior.rows@.len() + 1,
            forall|i: int| 0 <= i < prior.rows@.len() ==> self.rows@[i] == prior.rows@[i],
    {
        let n = prior.rows@.len() as int;
        if self.has_current(id) {
            let i = choose|i: int| self.current_at(i) && self.rows@[i].identity == id;
            if i == n {
                assert(self.rows@[i].deleted);
            } else {
                assert(self.rows@[i] == prior.rows@[i]);
                assert(Self::supersedes(self.rows@, n, i));
            }
        }
    }

    /// An empty store.
    pub fn new() -> (s: Self)
        ensures
            s.rows@ =~= Seq::<Revision<P>>::empty(),
    {
        RevisionStore { rows: Vec::new() }
    }

    /// How many revisions, over all identities, the store holds.
    pub fn len(&self) -> (r: usize)
        ensures
            r == self.rows@.len(),
    {
        self.rows.len()
    }

    /// The revision at position `i`, in insertion order.
    pub fn row(&self, i: usize) -> (r: &Revision<P>)
        requires
            i < self.rows@.len(),
        ensures
            *r == self.rows@[i as int],
    {
        &self.rows[i]
    }

    /// Whether any revision carries identity `id`.
    pub fn contains_identity(&self, id: u32) -> (r: bool)
        ensures
            r == self.has_identity(id),
    {
        let mut i: usize = 0;
        while i < self.rows.len()
            invariant
                i <= self.rows@.len(),
                forall|k: int| 0 <= k < i ==> #[trigger] self.rows@[k].identity != id,
            decreases self.rows@.len() - i,
        {
            if self.rows[i].identity == id {
                return true;
            }
            i = i + 1;
        }
        false
    }

    /// The largest identity in the store, zero when the store is empty.
    fn max_identity_exec(&self) -> (r: u32)
        ensures
            r as int == Self::max_identity(self.rows@),
    {
        let mut i: usize = 0;
        let mut m: u32 = 0;
        while i < self.rows.len()
            invariant
                i <= self.rows@.len(),
                m as int == Self::max_identity(self.rows@.subrange(0, i as int)),
            decreases self.rows@.len() - i,
        {
            proof {
                assert(self.rows@.subrange(0, i + 1).drop_last() =~= self.rows@.subrange(
                    0,
                    i as int,
                ));
                assert(self.rows@.subrange(0, i + 1).last() == self.rows@[i as int]);
            }
            if self.rows[i].identity > m {
                m = self.rows[i].identity;
            }
            i = i + 1;
        }
        proof {
            assert(self.rows@.subrange(0, self.rows@.len() as int) =~= self.rows@);
        }
        m
    }

    /// Whether a fresh identity can still be allocated.
    pub fn can_allocate(&self) -> (r: bool)
        ensures
            r == (Self::max_identity(self.rows@) < u32::MAX),
    {
        self.max_identity_exec() < u32::MAX
    }

    /// Appends a revision. With an identity, the revision joins that
    /// identity's history, which must exist; without one, a fresh identity
    /// is allocated. Nothing else in the store changes.
    pub fn insert_revision(
        &mut self,
        identity: Option<u32>,
        marker: u64,
        deleted: bool,
        payload: P,
    ) -> (r: Result<u32, Error>)
        ensures
            match identity {
                Some(id) => {
                    if old(self).has_identity(id) {
                        r == Result::<u32, Error>::Ok(id) && final(self).rows@ =~= old(self).rows@.push(
                            Revision { identity: id, marker, deleted, payload },
                        )
                    } else {
                        r == Result::<u32, Error>::Err(Error::EntryNotFound) && final(self).rows@ =~= old(
                            self,
                        ).rows@
                    }
                },
                None => {
                    if Self::max_identity(old(self).rows@) < u32::MAX {
                        r matches Ok(nid) && !old(self).has_identity(nid) && nid == Self::max_identity(
                            old(self).rows@,
                        ) + 1 && final(self).rows@ =~= old(self).rows@.push(
                            Revision { identity: (Self::max_identity(old(self).rows@) + 1) as u32, marker, deleted, payload },
                        )
                    } else {
                        r == Result::<u32, Error>::Err(Error::StorageFailure) && final(self).rows@ =~= old(
                            self,
                        ).rows@
                    }
                },
            },
    {
        match identity {
            Some(id) => {
                if self.contains_identity(id) {
                    self.rows.push(Revision { identity: id, marker, deleted, payload });
                    Ok(id)
                } else {
                    Err(Error::EntryNotFound)
                }
            },
            None => {
                let m = self.max_identity_exec();
                if m == u32::MAX {
                    Err(Error::StorageFailure)
                } else {
                    let nid = m + 1;
                    proof {
                        Self::lemma_max_identity_bounds(self.rows@);
                    }
                    self.rows.push(Revision { identity: nid, marker, deleted, payload });
                    Ok(nid)
                }
            },
        }
    }

    /// Whether row `i` is the latest revision of its identity.
    pub fn is_latest(&self, i: usize) -> (r: bool)
        requires
            i < self.rows@.len(),
        ensures
            r == self.latest_at(i as int),
    {
        let mut j: usize = 0;
        while j < self.rows.len()
            invariant
                i < self.rows@.len(),
                j <= self.rows@.len(),
                forall|k: int| 0 <= k < j ==> !#[trigger] Self::supersedes(self.rows@, k, i as int),
            decreases self.rows@.len() - j,
        {
            if self.rows[j].identity == self.rows[i].identity {
                if self.rows[j].marker > self.rows[i].marker || (self.rows[j].marker
                    == self.rows[i].marker && j > i) {
                    assert(Self::supersedes(self.rows@, j as int, i as int));
                    return false;
                }
            }
            j = j + 1;
        }
        true
    }

    /// Whether row `i` is in the current view.
    pub fn is_current(&self, i: usize) -> (r: bool)
        requires
            i < self.rows@.len(),
        ensures
            r == self.current_at(i as int),
    {
        if self.rows[i].deleted {
            return false;
        }
        self.is_latest(i)
    }

    /// The positions of the current view's rows, in insertion order:
    /// exactly one per live identity, the latest non-deleted revision.
    pub fn current_indices(&self) -> (r: Vec<usize>)
        ensures
            r@ == self.current_positions(),
            forall|k: int| 0 <= k < r@.len() ==> self.current_at(#[trigger] r@[k] as int),
            forall|k1: int, k2: int| 0 <= k1 < k2 < r@.len() ==> r@[k1] < r@[k2],
            forall|i: int| #[trigger] self.current_at(i) ==> r@.contains(i as usize),
    {
        let mut out: Vec<usize> = Vec::new();
        let mut i: usize = 0;
        while i < self.rows.len()
            invariant
                i <= self.rows@.len(),
                out@ == self.current_positions_upto(i as nat),
                forall|k: int| 0 <= k < out@.len() ==> self.current_at(#[trigger] out@[k] as int),
                forall|k1: int, k2: int| 0 <= k1 < k2 < out@.len() ==> out@[k1] < out@[k2],
                forall|k: int| 0 <= k < out@.len() ==> out@[k] < i,
                forall|j: int| 0 <= j < i && #[trigger] self.current_at(j) ==> out@.contains(
                    j as usize,
                ),
            decreases self.rows@.len() - i,
        {
            proof {
                reveal(Seq::filter);
                let full = Seq::new((i + 1) as nat, |k: int| k as usize);
                assert(full.drop_last() =~= Seq::new(i as nat, |k: int| k as usize));
                assert(full.last() == i as usize);
            }
            let ghost pre = out@;
            if self.is_current(i) {
                out.push(i);
                assert(out@[out@.len() - 1] == i);
            }
            assert(out@ == self.current_positions_upto((i + 1) as nat));
            assert forall|j: int| 0 <= j < i + 1 && #[trigger] self.current_at(j)
                implies out@.contains(j as usize) by {
                if j < i {
                    assert(pre.contains(j as usize));
                    let k = choose|k: int| 0 <= k < pre.len() && pre[k] == j as usize;
                    assert(out@[k] == j as usize);
                }
            }
            i = i + 1;
        }
        proof {
            assert(out@ == self.current_positions_upto(self.rows@.len()));
        }
        out
    }

    /// The positions of every revision of `id`, in insertion order —
    /// the identity's full history, deleted revisions included.
    pub fn history_indices(&self, id: u32) -> (r: Vec<usize>)
        ensures
            r@ == self.history_positions(id),
            forall|k: int|
                0 <= k < r@.len() ==> (#[trigger] r@[k]) < self.rows@.len() && self.rows@[r@[
                    k
                ] as int].identity == id,
            forall|k1: int, k2: int| 0 <= k1 < k2 < r@.len() ==> r@[k1] < r@[k2],
            forall|i: int|
                0 <= i < self.rows@.len() && #[trigger] self.rows@[i].identity == id
                    ==> r@.contains(i as usize),
    {
        let mut out: Vec<usize> = Vec::new();
        let mut i: usize = 0;
        while i < self.rows.len()
            invariant
                i <= self.rows@.len(),
                out@ == self.history_positions_upto(id, i as nat),
                forall|k: int|
                    0 <= k < out@.len() ==> (#[trigger] out@[k]) < self.rows@.len() && self.rows@[
                        out@[k] as int
                    ].identity == id,
                forall|k1: int, k2: int| 0 <= k1 < k2 < out@.len() ==> out@[k1] < out@[k2],
                forall|k: int| 0 <= k < out@.len() ==> out@[k] < i,
                forall|j: int|
                    0 <= j < i && #[trigger] self.rows@[j].identity == id ==> out@.contains(
                        j as usize,
                    ),
            decreases self.rows@.len() - i,
        {
            proof {
                reveal(Seq::filter);
                let full = Seq::new((i + 1) as nat, |k: int| k as usize);
                assert(full.drop_last() =~= Seq::new(i as nat, |k: int| k as usize));
                assert(full.last() == i as usize);
            }
            let ghost pre = out@;
            if self.rows[i].identity == id {
                out.push(i);
                assert(out@[out@.len() - 1] == i);
            }
            assert(out@ == self.history_positions_upto(id, (i + 1) as nat));
            assert forall|j: int| 0 <= j < i + 1 && #[trigger] self.rows@[j].identity == id
                implies out@.contains(j as usize) by {
                if j < i {
                    assert(pre.contains(j as usize));
                    let k = choose|k: int| 0 <= k < pre.len() && pre[k] == j as usize;
                    assert(out@[k] == j as usize);
                }
            }
            i = i + 1;
        }
        out
    }

    /// The position of the latest revision of `id`, deleted or not:
    /// `None` exactly when the identity never existed.
    pub fn latest_index_for(&self, id: u32) -> (r: Option<usize>)
        ensures
            match r {
                Some(i) => i < self.rows@.len() && self.latest_at(i as int) && self.rows@[
                    i as int
                ].identity == id,
                None => !self.has_identity(id),
            },
    {
        let mut best: Option<usize> = None;
        let mut i: usize = 0;
        while i < self.rows.len()
            invariant
                i <= self.rows@.len(),
                match best {
                    Some(b) => b < i && self.rows@[b as int].identity == id && forall|k: int|
                        0 <= k < i ==> !#[trigger] Self::supersedes(self.rows@, k, b as int),
                    None => forall|k: int| 0 <= k < i ==> #[trigger] self.rows@[k].identity != id,
                },
            decreases self.rows@.len() - i,
        {
            if self.rows[i].identity == id {
                match best {
                    None => {
                        best = Some(i);
                    },
                    Some(b) => {
                        if self.rows[i].marker >= self.rows[b].marker {
                            assert forall|k: int| 0 <= k < i + 1 implies !#[trigger] Self::supersedes(
                                self.rows@,
                                k,
                                i as int,
                            ) by {
                                if k < i && Self::supersedes(self.rows@, k, i as int) {
                                    assert(Self::supersedes(self.rows@, k, b as int));
                                }
                            }
                            best = Some(i);
                        } else {
                            assert(!Self::supersedes(self.rows@, i as int, b as int));
                        }
                    },
                }
            }
            i = i + 1;
        }
        best
    }

    /// The position of the current revision of `id`, if the identity is
    /// live: `None` exactly when no current row carries `id`.
    pub fn current_index_for(&self, id: u32) -> (r: Option<usize>)
        ensures
            match r {
                Some(i) => i < self.rows@.len() && self.current_at(i as int) && self.rows@[
                    i as int
                ].identity == id,
                None => !self.has_current(id),
            },
    {
        let mut i: usize = 0;
        while i < self.rows.len()
            invariant
                i <= self.rows@.len(),
                forall|j: int|
                    0 <= j < i ==> !(#[trigger] self.current_at(j) && self.rows@[j].identity == id),
            decreases self.rows@.len() - i,
        {
            if self.rows[i].identity == id {
                if self.is_current(i) {
                    return Some(i);
                }
            }
            i = i + 1;
        }
        None
    }
}

} // verus!
