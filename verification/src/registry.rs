//! The in-flight fetch registry.
//!
//! A transient set of remote ids currently being fetched.  Concurrent
//! resolutions of the same id collapse into one outbound fetch: the first
//! caller to register an id becomes its leader and performs the fetch, every
//! later caller sees the id registered and awaits the leader's result
//! instead of fetching again.  Entries are removed when the fetch completes,
//! whether it succeeded or failed; nothing here is ever persisted.

use vstd::prelude::*;
use crate::ids::{RemoteId, RidM, rid_eq};

verus! {

/// Index of the first occurrence of `rid` at or after `i`, or `-1`.
pub open spec fn find_rid_from(s: Seq<RidM>, rid: RidM, i: int) -> int
    decreases s.len() - i,
{
    if i < 0 || i >= s.len() {
        -1
    } else if s[i] == rid {
        i
    } else {
        find_rid_from(s, rid, i + 1)
    }
}

/// Whether `rid` occurs in `s`.
pub open spec fn reg_contains(s: Seq<RidM>, rid: RidM) -> bool {
    find_rid_from(s, rid, 0) >= 0
}

/// What the first-occurrence search promises.
pub proof fn lemma_find_rid_from(s: Seq<RidM>, rid: RidM, i: int)
    requires
        0 <= i <= s.len(),
    ensures
        ({
            let r = find_rid_from(s, rid, i);
            &&& r == -1 ==> forall|j: int| i <= j < s.len() ==> s[j] != rid
            &&& r != -1 ==> i <= r < s.len() && s[r] == rid && forall|j: int| i <= j < r ==> s[j] != rid
        }),
    decreases s.len() - i,
{
    if i < s.len() && s[i] != rid {
        lemma_find_rid_from(s, rid, i + 1);
    }
}

/// Containment is the existence of an occurrence.
pub proof fn lemma_reg_contains_exists(s: Seq<RidM>, rid: RidM)
    ensures
        reg_contains(s, rid) <==> exists|i: int| 0 <= i < s.len() && s[i] == rid,
{
    lemma_find_rid_from(s, rid, 0);
    if reg_contains(s, rid) {
        let r = find_rid_from(s, rid, 0);
        assert(s[r] == rid);
    }
}

/// What registering `rid` does: nothing if it is already in flight, else it
/// is appended and the caller is the leader.
pub open spec fn begin_m(s: Seq<RidM>, rid: RidM) -> (Seq<RidM>, bool) {
    if reg_contains(s, rid) {
        (s, false)
    } else {
        (s.push(rid), true)
    }
}

/// What completing the fetch of `rid` does: its first occurrence is removed.
pub open spec fn finish_m(s: Seq<RidM>, rid: RidM) -> Seq<RidM> {
    let i = find_rid_from(s, rid, 0);
    if i >= 0 {
        s.remove(i)
    } else {
        s
    }
}

/// The registry of fetches currently in flight.
pub struct Registry {
    pub inflight: Vec<RemoteId>,
}

impl View for Registry {
    type V = Seq<RidM>;

    open spec fn view(&self) -> Seq<RidM> {
        self.inflight@.map_values(|r: RemoteId| r@)
    }
}

impl Registry {
    /// No id occurs twice.
    pub open spec fn wf(self) -> bool {
        forall|i: int, j: int| 0 <= i < j < self@.len() ==> self@[i] != self@[j]
    }

    /// An empty registry.
    pub fn new() -> (r: Registry)
        ensures
            r@.len() == 0,
            r.wf(),
    {
        Registry { inflight: Vec::new() }
    }

    /// Looks `rid` up.
    fn find(&self, rid: &RemoteId) -> (r: Option<usize>)
        ensures
            match r {
                Some(i) => find_rid_from(self@, rid@, 0) == i,
                None => find_rid_from(self@, rid@, 0) == -1,
            },
    {
        let n = self.inflight.len();
        let mut i: usize = 0;
        while i < n
            invariant
                n == self.inflight.len(),
                i <= n,
                find_rid_from(self@, rid@, 0) == find_rid_from(self@, rid@, i as int),
            decreases n - i,
        {
            if rid_eq(&self.inflight[i], rid) {
                assert(self@[i as int] == rid@);
                return Some(i);
            }
            assert(self@[i as int] != rid@);
            i += 1;
        }
        None
    }

    /// Whether a fetch of `rid` is in flight.
    pub fn contains(&self, rid: &RemoteId) -> (r: bool)
        ensures
            r == reg_contains(self@, rid@),
    {
        self.find(rid).is_some()
    }

    /// Registers a fetch of `rid`.  Returns `true` when the caller is the
    /// leader and must perform the one outbound fetch; `false` when the id
    /// is already in flight and the caller awaits that fetch instead.
    pub fn begin(&mut self, rid: &RemoteId) -> (leader: bool)
        requires
            old(self).wf(),
        ensures
            final(self).wf(),
            (final(self)@, leader) == begin_m(old(self)@, rid@),
            leader == !reg_contains(old(self)@, rid@),
    {
        let ghost old_s = self@;
        match self.find(rid) {
            Some(_) => false,
            None => {
                self.inflight.push(rid.clone());
                proof {
                    assert(self@ =~= old_s.push(rid@));
                    lemma_find_rid_from(old_s, rid@, 0);
                    assert forall|i: int, j: int|
                        0 <= i < j < self@.len() implies self@[i] != self@[j] by {
                        if j < old_s.len() {
                            assert(old_s[i] != old_s[j]);
                        } else {
                            assert(old_s[i] != rid@);
                        }
                    }
                }
                true
            },
        }
    }

    /// Removes `rid` after its fetch completed, whether it succeeded or
    /// failed; removing an id not in flight changes nothing.
    pub fn finish(&mut self, rid: &RemoteId)
        requires
            old(self).wf(),
        ensures
            final(self).wf(),
            final(self)@ == finish_m(old(self)@, rid@),
            !reg_contains(final(self)@, rid@),
            forall|r: RidM| r != rid@ ==> reg_contains(final(self)@, r) == reg_contains(old(self)@, r),
    {
        let ghost old_s = self@;
        match self.find(rid) {
            Some(i) => {
                proof {
                    lemma_find_rid_from(old_s, rid@, 0);
                }
                self.inflight.remove(i);
                proof {
                    let idx = find_rid_from(old_s, rid@, 0);
                    assert(self@ =~= old_s.remove(idx));
                    assert forall|a: int, b: int|
                        0 <= a < b < self@.len() implies self@[a] != self@[b] by {
                        let a0 = if a < idx { a } else { a + 1 };
                        let b0 = if b < idx { b } else { b + 1 };
                        assert(self@[a] == old_s[a0]);
                        assert(self@[b] == old_s[b0]);
                    }
                    lemma_finish_removes(old_s, rid@);
                }
            },
            None => {
                proof {
                    lemma_find_rid_from(old_s, rid@, 0);
                }
            },
        }
    }
}

/// After `finish_m`, the finished id is out and every other id is
/// untouched, provided no id occurred twice.
pub proof fn lemma_finish_removes(s: Seq<RidM>, rid: RidM)
    requires
        forall|i: int, j: int| 0 <= i < j < s.len() ==> s[i] != s[j],
    ensures
        !reg_contains(finish_m(s, rid), rid),
        forall|r: RidM| r != rid ==> reg_contains(finish_m(s, rid), r) == reg_contains(s, r),
{
    lemma_find_rid_from(s, rid, 0);
    let i = find_rid_from(s, rid, 0);
    let s2 = finish_m(s, rid);
    if i >= 0 {
        assert forall|r: RidM| !reg_contains(s2, r) implies r == rid || !reg_contains(s, r) by {
            lemma_find_rid_from(s2, r, 0);
            lemma_find_rid_from(s, r, 0);
            if reg_contains(s, r) && r != rid {
                let k = find_rid_from(s, r, 0);
                let k2 = if k < i { k } else { k - 1 };
                assert(s2[k2] == s[k]);
            }
        }
        assert forall|r: RidM| reg_contains(s2, r) implies r != rid && reg_contains(s, r) by {
            lemma_find_rid_from(s2, r, 0);
            lemma_find_rid_from(s, r, 0);
            let k2 = find_rid_from(s2, r, 0);
            let k0 = if k2 < i { k2 } else { k2 + 1 };
            assert(s2[k2] == s[k0]);
            if k0 == i {
                assert(s[i] == rid);
            }
        }
    } else {
        lemma_find_rid_from(s, rid, 0);
    }
}

/// Single flight: once a fetch of `rid` is registered, a second attempt to
/// register it is never the leader, so at most one outbound fetch of the
/// same id is in flight at any time.
pub proof fn lemma_single_flight(s: Seq<RidM>, rid: RidM)
    ensures
        begin_m(begin_m(s, rid).0, rid).1 == false,
{
    let s1 = begin_m(s, rid).0;
    lemma_find_rid_from(s, rid, 0);
    if !reg_contains(s, rid) {
        lemma_find_rid_from(s1, rid, 0);
        assert(s1[s.len() as int] == rid);
    }
    lemma_find_rid_from(s1, rid, 0);
}

} // verus!
