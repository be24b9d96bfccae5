//! The local object store.
//!
//! A verified in-memory model of the storage collaborator: locally mirrored
//! remote entities keyed by their unique remote id, one vote record per
//! (actor, target) pair, and one follow-relationship record per
//! (follower, community) pair.  The local numeric id of an entity is its
//! position in the entity table; entities are soft-deleted, never removed,
//! so local ids are stable.

use vstd::prelude::*;
use crate::ids::{RemoteId, RidM};

verus! {

/// The kinds of remote entity the platform mirrors.
#[derive(Clone, Copy, Debug, PartialEq, Eq, Structural)]
pub enum EntityKind {
    Person,
    Community,
    Post,
    Comment,
}

/// A locally mirrored remote entity.
pub struct Entity {
    pub remote_id: RemoteId,
    pub kind: EntityKind,
    pub content: String,
    pub deleted: bool,
    pub updated: u64,
}

/// The mathematical value of an [`Entity`].
#[verifier::ext_equal]
pub struct EntM {
    pub remote_id: RidM,
    pub kind: EntityKind,
    pub content: Seq<char>,
    pub deleted: bool,
    pub updated: u64,
}

impl View for Entity {
    type V = EntM;

    open spec fn view(&self) -> EntM {
        EntM {
            remote_id: self.remote_id@,
            kind: self.kind,
            content: self.content@,
            deleted: self.deleted,
            updated: self.updated,
        }
    }
}

/// One actor's vote on one entity; `score` is `1` for a like, `-1` for a
/// dislike.  At most one record exists per (actor, target) pair.
pub struct Vote {
    pub actor: RemoteId,
    pub target: usize,
    pub score: i8,
}

/// The mathematical value of a [`Vote`].
#[verifier::ext_equal]
pub struct VoteM {
    pub actor: RidM,
    pub target: usize,
    pub score: i8,
}

impl View for Vote {
    type V = VoteM;

    open spec fn view(&self) -> VoteM {
        VoteM { actor: self.actor@, target: self.target, score: self.score }
    }
}

/// The status of a follow relationship.
#[derive(Clone, Copy, Debug, PartialEq, Eq, Structural)]
pub enum FollowState {
    Pending,
    Accepted,
    Rejected,
}

/// A follow relationship: `actor` (the follower, by remote id) follows the
/// local entity at `target`.  At most one record per (actor, target) pair.
pub struct FollowRec {
    pub actor: RemoteId,
    pub target: usize,
    pub state: FollowState,
}

/// The mathematical value of a [`FollowRec`].
#[verifier::ext_equal]
pub struct FollowM {
    pub actor: RidM,
    pub target: usize,
    pub state: FollowState,
}

impl View for FollowRec {
    type V = FollowM;

    open spec fn view(&self) -> FollowM {
        FollowM { actor: self.actor@, target: self.target, state: self.state }
    }
}

/// The mathematical value of a [`Store`].
#[verifier::ext_equal]
pub struct StoreM {
    pub ents: Seq<EntM>,
    pub votes: Seq<VoteM>,
    pub follows: Seq<FollowM>,
}

/// Index of the first entity with remote id `rid` at or after `i`, or `-1`.
pub open spec fn find_ent_from(ents: Seq<EntM>, rid: RidM, i: int) -> int
    decreases ents.len() - i,
{
    if i < 0 || i >= ents.len() {
        -1
    } else if ents[i].remote_id == rid {
        i
    } else {
        find_ent_from(ents, rid, i + 1)
    }
}

/// Index of the first vote by `actor` on `target` at or after `i`, or `-1`.
pub open spec fn find_vote_from(votes: Seq<VoteM>, actor: RidM, target: usize, i: int) -> int
    decreases votes.len() - i,
{
    if i < 0 || i >= votes.len() {
        -1
    } else if votes[i].actor == actor && votes[i].target == target {
        i
    } else {
        find_vote_from(votes, actor, target, i + 1)
    }
}

/// Index of the first follow record of (`actor`, `target`) at or after `i`,
/// or `-1`.
pub open spec fn find_follow_from(follows: Seq<FollowM>, actor: RidM, target: usize, i: int) -> int
    decreases follows.len() - i,
{
    if i < 0 || i >= follows.len() {
        -1
    } else if follows[i].actor == actor && follows[i].target == target {
        i
    } else {
        find_follow_from(follows, actor, target, i + 1)
    }
}

impl StoreM {
    /// Index of the entity with remote id `rid`, or `-1`.
    pub open spec fn idx_of(self, rid: RidM) -> int {
        find_ent_from(self.ents, rid, 0)
    }

    /// Whether an entity with remote id `rid` is stored.
    pub open spec fn contains_rid(self, rid: RidM) -> bool {
        self.idx_of(rid) >= 0
    }

    /// Index of the vote record of (`actor`, `target`), or `-1`.
    pub open spec fn vote_idx(self, actor: RidM, target: usize) -> int {
        find_vote_from(self.votes, actor, target, 0)
    }

    /// Index of the follow record of (`actor`, `target`), or `-1`.
    pub open spec fn follow_idx(self, actor: RidM, target: usize) -> int {
        find_follow_from(self.follows, actor, target, 0)
    }

    /// Well-formedness: remote ids are unique, vote and follow records point
    /// at stored entities, and each (actor, target) pair has at most one
    /// vote and one follow record.
    pub open spec fn wf(self) -> bool {
        &&& forall|i: int, j: int|
            0 <= i < j < self.ents.len() ==> (#[trigger] self.ents[i]).remote_id != (
            #[trigger] self.ents[j]).remote_id
        &&& forall|i: int|
            0 <= i < self.votes.len() ==> (#[trigger] self.votes[i]).target < self.ents.len()
        &&& forall|i: int, j: int|
            0 <= i < j < self.votes.len() ==> !((#[trigger] self.votes[i]).actor == (
            #[trigger] self.votes[j]).actor && self.votes[i].target == self.votes[j].target)
        &&& forall|i: int|
            0 <= i < self.follows.len() ==> (#[trigger] self.follows[i]).target < self.ents.len()
        &&& forall|i: int, j: int|
            0 <= i < j < self.follows.len() ==> !((#[trigger] self.follows[i]).actor == (
            #[trigger] self.follows[j]).actor && self.follows[i].target == self.follows[j].target)
    }
}

/// What the first-index search promises: `-1` means no match at or after
/// `i`; otherwise the result is the first match at or after `i`.
pub proof fn lemma_find_ent_from(ents: Seq<EntM>, rid: RidM, i: int)
    requires
        0 <= i <= ents.len(),
    ensures
        ({
            let r = find_ent_from(ents, rid, i);
            &&& r == -1 ==> forall|j: int| i <= j < ents.len() ==> (#[trigger] ents[j]).remote_id != rid
            &&& r != -1 ==> i <= r < ents.len() && ents[r].remote_id == rid && forall|j: int|
                i <= j < r ==> (#[trigger] ents[j]).remote_id != rid
        }),
    decreases ents.len() - i,
{
    if i < ents.len() && !(ents[i].remote_id == rid) {
        lemma_find_ent_from(ents, rid, i + 1);
    }
}

/// Same promise for the vote search.
pub proof fn lemma_find_vote_from(votes: Seq<VoteM>, actor: RidM, target: usize, i: int)
    requires
        0 <= i <= votes.len(),
    ensures
        ({
            let r = find_vote_from(votes, actor, target, i);
            &&& r == -1 ==> forall|j: int|
                i <= j < votes.len() ==> !((#[trigger] votes[j]).actor == actor && votes[j].target
                    == target)
            &&& r != -1 ==> i <= r < votes.len() && votes[r].actor == actor && votes[r].target
                == target && forall|j: int|
                i <= j < r ==> !((#[trigger] votes[j]).actor == actor && votes[j].target == target)
        }),
    decreases votes.len() - i,
{
    if i < votes.len() && !(votes[i].actor == actor && votes[i].target == target) {
        lemma_find_vote_from(votes, actor, target, i + 1);
    }
}

/// Same promise for the follow search.
pub proof fn lemma_find_follow_from(follows: Seq<FollowM>, actor: RidM, target: usize, i: int)
    requires
        0 <= i <= follows.len(),
    ensures
        ({
            let r = find_follow_from(follows, actor, target, i);
            &&& r == -1 ==> forall|j: int|
                i <= j < follows.len() ==> !((#[trigger] follows[j]).actor == actor
                    && follows[j].target == target)
            &&& r != -1 ==> i <= r < follows.len() && follows[r].actor == actor && follows[r].target
                == target && forall|j: int|
                i <= j < r ==> !((#[trigger] follows[j]).actor == actor && follows[j].target
                    == target)
        }),
    decreases follows.len() - i,
{
    if i < follows.len() && !(follows[i].actor == actor && follows[i].target == target) {
        lemma_find_follow_from(follows, actor, target, i + 1);
    }
}

/// In a well-formed store an entity is found exactly at its own index.
pub proof fn lemma_idx_of_unique(s: StoreM, rid: RidM, k: int)
    requires
        s.wf(),
        0 <= k < s.ents.len(),
        s.ents[k].remote_id == rid,
    ensures
        s.idx_of(rid) == k,
{
    lemma_find_ent_from(s.ents, rid, 0);
}

/// The local object store.
pub struct Store {
    pub entities: Vec<Entity>,
    pub votes: Vec<Vote>,
    pub follows: Vec<FollowRec>,
}

impl View for Store {
    type V = StoreM;

    open spec fn view(&self) -> StoreM {
        StoreM {
            ents: self.entities@.map_values(|e: Entity| e@),
            votes: self.votes@.map_values(|v: Vote| v@),
            follows: self.follows@.map_values(|f: FollowRec| f@),
        }
    }
}

impl Store {
    /// An empty store.
    pub fn new() -> (r: Store)
        ensures
            r@.ents.len() == 0,
            r@.votes.len() == 0,
            r@.follows.len() == 0,
            r@.wf(),
    {
        Store { entities: Vec::new(), votes: Vec::new(), follows: Vec::new() }
    }

    /// Number of stored entities.
    pub fn len(&self) -> (r: usize)
        ensures
            r == self@.ents.len(),
    {
        self.entities.len()
    }

    /// Reads the entity with local id `local_id`.
    pub fn read(&self, local_id: usize) -> (r: Option<&Entity>)
        ensures
            match r {
                Some(e) => local_id < self@.ents.len() && e@ == self@.ents[local_id as int],
                None => local_id >= self@.ents.len(),
            },
    {
        if local_id < self.entities.len() {
            Some(&self.entities[local_id])
        } else {
            None
        }
    }

    /// Looks an entity up by its remote id.
    pub fn find_by_remote(&self, rid: &RemoteId) -> (r: Option<usize>)
        ensures
            match r {
                Some(i) => self@.idx_of(rid@) == i,
                None => self@.idx_of(rid@) == -1,
            },
    {
        let n = self.entities.len();
        let mut i: usize = 0;
        while i < n
            invariant
                n == self.entities.len(),
                i <= n,
                find_ent_from(self@.ents, rid@, 0) == find_ent_from(self@.ents, rid@, i as int),
            decreases n - i,
        {
            if crate::ids::rid_eq(&self.entities[i].remote_id, rid) {
                assert(self@.ents[i as int].remote_id == rid@);
                return Some(i);
            }
            assert(self@.ents[i as int].remote_id != rid@);
            i += 1;
        }
        None
    }

    /// Inserts an entity under a fresh local id, unless one with the same
    /// remote id exists: then the store is the final arbiter of the insert
    /// race and the existing row wins unchanged.  Returns the local id
    /// either way.
    pub fn upsert_entity(
        &mut self,
        remote_id: RemoteId,
        kind: EntityKind,
        content: String,
        updated: u64,
    ) -> (id: usize)
        requires
            old(self)@.wf(),
        ensures
            final(self)@.wf(),
            id < final(self)@.ents.len(),
            final(self)@.idx_of(remote_id@) == id,
            ({
                let s = old(self)@;
                if s.contains_rid(remote_id@) {
                    final(self)@ == s && id == s.idx_of(remote_id@)
                } else {
                    final(self)@ == (StoreM {
                        ents: s.ents.push(
                            EntM {
                                remote_id: remote_id@,
                                kind,
                                content: content@,
                                deleted: false,
                                updated,
                            },
                        ),
                        ..s
                    }) && id == s.ents.len()
                }
            }),
    {
        proof {
            lemma_find_ent_from(old(self)@.ents, remote_id@, 0);
        }
        match self.find_by_remote(&remote_id) {
            Some(i) => i,
            None => {
                let id = self.entities.len();
                let ghost old_s = self@;
                let ghost new_ent = EntM {
                    remote_id: remote_id@,
                    kind,
                    content: content@,
                    deleted: false,
                    updated,
                };
                self.entities.push(
                    Entity { remote_id, kind, content, deleted: false, updated },
                );
                proof {
                    assert(self@.ents =~= old_s.ents.push(new_ent));
                    assert(self@ =~= (StoreM { ents: old_s.ents.push(new_ent), ..old_s }));
                    lemma_find_ent_from(old_s.ents, new_ent.remote_id, 0);
                    assert forall|i: int, j: int|
                        0 <= i < j < self@.ents.len() implies (#[trigger] self@.ents[i]).remote_id
                        != (#[trigger] self@.ents[j]).remote_id by {
                        if j < old_s.ents.len() {
                            assert(old_s.ents[i].remote_id != old_s.ents[j].remote_id);
                        } else {
                            assert(old_s.ents[i].remote_id != new_ent.remote_id);
                        }
                    }
                    lemma_idx_of_unique(self@, new_ent.remote_id, id as int);
                }
                id
            },
        }
    }

    /// Sets the soft-delete flag of the entity at `local_id`.
    pub fn set_deleted(&mut self, local_id: usize, deleted: bool)
        requires
            old(self)@.wf(),
            local_id < old(self)@.ents.len(),
        ensures
            final(self)@ == (StoreM {
                ents: old(self)@.ents.update(
                    local_id as int,
                    EntM { deleted, ..old(self)@.ents[local_id as int] },
                ),
                ..old(self)@
            }),
            final(self)@.wf(),
    {
        let ghost old_s = self@;
        self.entities[local_id].deleted = deleted;
        proof {
            let new_ent = EntM { deleted, ..old_s.ents[local_id as int] };
            assert(self@.ents =~= old_s.ents.update(local_id as int, new_ent));
            assert(self@ =~= (StoreM { ents: old_s.ents.update(local_id as int, new_ent), ..old_s }));
        }
    }

    /// Overwrites the mutable fields of the entity at `local_id` and bumps
    /// its update timestamp.
    pub fn overwrite_content(&mut self, local_id: usize, content: String, updated: u64)
        requires
            old(self)@.wf(),
            local_id < old(self)@.ents.len(),
        ensures
            final(self)@ == (StoreM {
                ents: old(self)@.ents.update(
                    local_id as int,
                    EntM { content: content@, updated, ..old(self)@.ents[local_id as int] },
                ),
                ..old(self)@
            }),
            final(self)@.wf(),
    {
        let ghost old_s = self@;
        let e = &mut self.entities[local_id];
        e.content = content;
        e.updated = updated;
        proof {
            let new_ent = EntM { content: content@, updated, ..old_s.ents[local_id as int] };
            assert(self@.ents =~= old_s.ents.update(local_id as int, new_ent));
            assert(self@ =~= (StoreM { ents: old_s.ents.update(local_id as int, new_ent), ..old_s }));
        }
    }

    /// Looks the vote of (`actor`, `target`) up.
    pub fn vote_find(&self, actor: &RemoteId, target: usize) -> (r: Option<usize>)
        ensures
            match r {
                Some(i) => self@.vote_idx(actor@, target) == i,
                None => self@.vote_idx(actor@, target) == -1,
            },
    {
        let n = self.votes.len();
        let mut i: usize = 0;
        while i < n
            invariant
                n == self.votes.len(),
                i <= n,
                find_vote_from(self@.votes, actor@, target, 0) == find_vote_from(
                    self@.votes,
                    actor@,
                    target,
                    i as int,
                ),
            decreases n - i,
        {
            if crate::ids::rid_eq(&self.votes[i].actor, actor) && self.votes[i].target == target {
                assert(self@.votes[i as int].actor == actor@);
                return Some(i);
            }
            assert(!(self@.votes[i as int].actor == actor@ && self@.votes[i as int].target
                == target));
            i += 1;
        }
        None
    }

    /// Records `actor`'s vote on `target`, replacing any prior vote by the
    /// same actor on the same target.
    pub fn vote_upsert(&mut self, actor: RemoteId, target: usize, score: i8)
        requires
            old(self)@.wf(),
            target < old(self)@.ents.len(),
        ensures
            final(self)@.wf(),
            ({
                let s = old(self)@;
                let i = s.vote_idx(actor@, target);
                if i >= 0 {
                    final(self)@ == (StoreM {
                        votes: s.votes.update(i, VoteM { score, ..s.votes[i] }),
                        ..s
                    })
                } else {
                    final(self)@ == (StoreM {
                        votes: s.votes.push(VoteM { actor: actor@, target, score }),
                        ..s
                    })
                }
            }),
    {
        let ghost old_s = self@;
        match self.vote_find(&actor, target) {
            Some(i) => {
                proof {
                    lemma_find_vote_from(old_s.votes, actor@, target, 0);
                }
                self.votes[i].score = score;
                proof {
                    let idx = old_s.vote_idx(actor@, target);
                    let new_vote = VoteM { score, ..old_s.votes[idx] };
                    assert(self@.votes =~= old_s.votes.update(idx, new_vote));
                    assert(self@ =~= (StoreM { votes: old_s.votes.update(idx, new_vote), ..old_s }));
                }
            },
            None => {
                proof {
                    lemma_find_vote_from(old_s.votes, actor@, target, 0);
                }
                self.votes.push(Vote { actor, target, score });
                proof {
                    let new_vote = VoteM { actor: actor@, target, score };
                    assert(self@.votes =~= old_s.votes.push(new_vote));
                    assert(self@ =~= (StoreM { votes: old_s.votes.push(new_vote), ..old_s }));
                    assert forall|i: int, j: int|
                        0 <= i < j < self@.votes.len() implies !((#[trigger] self@.votes[i]).actor
                        == (#[trigger] self@.votes[j]).actor && self@.votes[i].target
                        == self@.votes[j].target) by {
                        if j < old_s.votes.len() {
                            assert(!(old_s.votes[i].actor == old_s.votes[j].actor
                                && old_s.votes[i].target == old_s.votes[j].target));
                        }
                    }
                }
            },
        }
    }

    /// Removes `actor`'s vote on `target`, if there is one; removing an
    /// absent vote leaves the store unchanged.
    pub fn vote_remove(&mut self, actor: &RemoteId, target: usize)
        requires
            old(self)@.wf(),
        ensures
            final(self)@.wf(),
            ({
                let s = old(self)@;
                let i = s.vote_idx(actor@, target);
                if i >= 0 {
                    final(self)@ == (StoreM { votes: s.votes.remove(i), ..s })
                } else {
                    final(self)@ == s
                }
            }),
    {
        let ghost old_s = self@;
        match self.vote_find(actor, target) {
            Some(i) => {
                proof {
                    lemma_find_vote_from(old_s.votes, actor@, target, 0);
                }
                self.votes.remove(i);
                proof {
                    let idx = old_s.vote_idx(actor@, target);
                    assert(self@.votes =~= old_s.votes.remove(idx));
                    assert(self@ =~= (StoreM { votes: old_s.votes.remove(idx), ..old_s }));
                    assert forall|a: int, b: int|
                        0 <= a < b < self@.votes.len() implies !((#[trigger] self@.votes[a]).actor
                        == (#[trigger] self@.votes[b]).actor && self@.votes[a].target
                        == self@.votes[b].target) by {
                        let a0 = if a < idx { a } else { a + 1 };
                        let b0 = if b < idx { b } else { b + 1 };
                        assert(self@.votes[a] == old_s.votes[a0]);
                        assert(self@.votes[b] == old_s.votes[b0]);
                        assert(!(old_s.votes[a0].actor == old_s.votes[b0].actor
                            && old_s.votes[a0].target == old_s.votes[b0].target));
                    }
                    assert forall|a: int|
                        0 <= a < self@.votes.len() implies (#[trigger] self@.votes[a]).target
                        < self@.ents.len() by {
                        let a0 = if a < idx { a } else { a + 1 };
                        assert(self@.votes[a] == old_s.votes[a0]);
                    }
                }
            },
            None => {},
        }
    }

    /// Looks the follow record of (`actor`, `target`) up.
    pub fn follow_find(&self, actor: &RemoteId, target: usize) -> (r: Option<usize>)
        ensures
            match r {
                Some(i) => self@.follow_idx(actor@, target) == i,
                None => self@.follow_idx(actor@, target) == -1,
            },
    {
        let n = self.follows.len();
        let mut i: usize = 0;
        while i < n
            invariant
                n == self.follows.len(),
                i <= n,
                find_follow_from(self@.follows, actor@, target, 0) == find_follow_from(
                    self@.follows,
                    actor@,
                    target,
                    i as int,
                ),
            decreases n - i,
        {
            if crate::ids::rid_eq(&self.follows[i].actor, actor) && self.follows[i].target
                == target {
                assert(self@.follows[i as int].actor == actor@);
                return Some(i);
            }
            assert(!(self@.follows[i as int].actor == actor@ && self@.follows[i as int].target
                == target));
            i += 1;
        }
        None
    }

    /// Reads the state of the follow record of (`actor`, `target`).
    pub fn follow_state(&self, actor: &RemoteId, target: usize) -> (r: Option<FollowState>)
        ensures
            match r {
                Some(st) => {
                    let i = self@.follow_idx(actor@, target);
                    i >= 0 && self@.follows[i].state == st
                },
                None => self@.follow_idx(actor@, target) == -1,
            },
    {
        match self.follow_find(actor, target) {
            Some(i) => {
                proof {
                    lemma_find_follow_from(self@.follows, actor@, target, 0);
                }
                Some(self.follows[i].state)
            },
            None => None,
        }
    }

    /// Creates the follow record of (`actor`, `target`) in `Pending` state
    /// if none exists; an existing record of any state is left unchanged.
    pub fn follow_request(&mut self, actor: RemoteId, target: usize)
        requires
            old(self)@.wf(),
            target < old(self)@.ents.len(),
        ensures
            final(self)@.wf(),
            ({
                let s = old(self)@;
                if s.follow_idx(actor@, target) >= 0 {
                    final(self)@ == s
                } else {
                    final(self)@ == (StoreM {
                        follows: s.follows.push(
                            FollowM { actor: actor@, target, state: FollowState::Pending },
                        ),
                        ..s
                    })
                }
            }),
    {
        let ghost old_s = self@;
        match self.follow_find(&actor, target) {
            Some(_) => {},
            None => {
                proof {
                    lemma_find_follow_from(old_s.follows, actor@, target, 0);
                }
                self.follows.push(FollowRec { actor, target, state: FollowState::Pending });
                proof {
                    let new_rec = FollowM { actor: actor@, target, state: FollowState::Pending };
                    assert(self@.follows =~= old_s.follows.push(new_rec));
                    assert(self@ =~= (StoreM { follows: old_s.follows.push(new_rec), ..old_s }));
                    assert forall|i: int, j: int|
                        0 <= i < j < self@.follows.len() implies !((
                        #[trigger] self@.follows[i]).actor == (#[trigger] self@.follows[j]).actor
                        && self@.follows[i].target == self@.follows[j].target) by {
                        if j < old_s.follows.len() {
                            assert(!(old_s.follows[i].actor == old_s.follows[j].actor
                                && old_s.follows[i].target == old_s.follows[j].target));
                        }
                    }
                }
            },
        }
    }

    /// Sets the state of the follow record of (`actor`, `target`), if one
    /// exists; otherwise the store is left unchanged.
    pub fn follow_set_state(&mut self, actor: &RemoteId, target: usize, state: FollowState)
        requires
            old(self)@.wf(),
        ensures
            final(self)@.wf(),
            ({
                let s = old(self)@;
                let i = s.follow_idx(actor@, target);
                if i >= 0 {
                    final(self)@ == (StoreM {
                        follows: s.follows.update(i, FollowM { state, ..s.follows[i] }),
                        ..s
                    })
                } else {
                    final(self)@ == s
                }
            }),
    {
        let ghost old_s = self@;
        match self.follow_find(actor, target) {
            Some(i) => {
                proof {
                    lemma_find_follow_from(old_s.follows, actor@, target, 0);
                }
                self.follows[i].state = state;
                proof {
                    let idx = old_s.follow_idx(actor@, target);
                    let new_rec = FollowM { state, ..old_s.follows[idx] };
                    assert(self@.follows =~= old_s.follows.update(idx, new_rec));
                    assert(self@ =~= (StoreM {
                        follows: old_s.follows.update(idx, new_rec),
                        ..old_s
                    }));
                }
            },
            None => {},
        }
    }
}

} // verus!
