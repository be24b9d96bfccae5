//! Laws of the pipeline, proved once over the specification.
//!
//! Delivery is at-least-once, so every handler must be safe to re-invoke
//! with the same activity after a prior success; these lemmas state that,
//! and the ordering of commit before broadcast, over [`spec_apply`] — the
//! one function [`crate::handlers::apply_activity`] is proven to compute.

use vstd::prelude::*;
use crate::activity::{Activity, ActivityKind, UndoTarget};
use crate::handlers::{apply_pre, spec_apply, EventOp};
use crate::resolver::lemma_contains_exists;
use crate::store::{
    EntM, FollowM, StoreM, VoteM, lemma_find_follow_from, lemma_find_vote_from,
};

verus! {

/// Replacing a vote record with one of the same key leaves it the first
/// match.
proof fn lemma_vote_find_update(votes: Seq<VoteM>, i: int, v: VoteM, actor: crate::ids::RidM, target: usize)
    requires
        0 <= i < votes.len(),
        crate::store::find_vote_from(votes, actor, target, 0) == i,
        v.actor == actor,
        v.target == target,
    ensures
        crate::store::find_vote_from(votes.update(i, v), actor, target, 0) == i,
{
    let votes2 = votes.update(i, v);
    lemma_find_vote_from(votes, actor, target, 0);
    lemma_find_vote_from(votes2, actor, target, 0);
    let r = crate::store::find_vote_from(votes2, actor, target, 0);
    assert(votes2[i].actor == actor && votes2[i].target == target);
    if r == -1 {
        assert(!(votes2[i].actor == actor && votes2[i].target == target));
    }
    if r < i {
        assert(votes2[r] == votes[r]);
    }
}

/// A vote pushed onto records without its key becomes the first match.
proof fn lemma_vote_find_push(votes: Seq<VoteM>, v: VoteM, actor: crate::ids::RidM, target: usize)
    requires
        crate::store::find_vote_from(votes, actor, target, 0) == -1,
        v.actor == actor,
        v.target == target,
    ensures
        crate::store::find_vote_from(votes.push(v), actor, target, 0) == votes.len(),
{
    let votes2 = votes.push(v);
    lemma_find_vote_from(votes, actor, target, 0);
    lemma_find_vote_from(votes2, actor, target, 0);
    let r = crate::store::find_vote_from(votes2, actor, target, 0);
    assert(votes2[votes.len() as int].actor == actor);
    if r == -1 {
        assert(!(votes2[votes.len() as int].actor == actor && votes2[votes.len() as int].target
            == target));
    }
    if 0 <= r < votes.len() {
        assert(votes2[r] == votes[r]);
    }
}

/// Removing the only vote record of a key leaves no match, provided no key
/// occurs twice.
proof fn lemma_vote_find_remove(votes: Seq<VoteM>, i: int, actor: crate::ids::RidM, target: usize)
    requires
        forall|a: int, b: int|
            0 <= a < b < votes.len() ==> !((#[trigger] votes[a]).actor == (
            #[trigger] votes[b]).actor && votes[a].target == votes[b].target),
        crate::store::find_vote_from(votes, actor, target, 0) == i,
        0 <= i < votes.len(),
    ensures
        crate::store::find_vote_from(votes.remove(i), actor, target, 0) == -1,
{
    let votes2 = votes.remove(i);
    lemma_find_vote_from(votes, actor, target, 0);
    lemma_find_vote_from(votes2, actor, target, 0);
    let r = crate::store::find_vote_from(votes2, actor, target, 0);
    if r != -1 {
        let r0 = if r < i { r } else { r + 1 };
        assert(votes2[r] == votes[r0]);
        assert(votes[i].actor == actor && votes[i].target == target);
        if r0 < i {
            assert(!(votes[r0].actor == actor && votes[r0].target == target));
        } else {
            assert(!(votes[i].actor == votes[r0].actor && votes[i].target == votes[r0].target));
        }
    }
}

/// Replacing a follow record with one of the same key leaves it the first
/// match.
proof fn lemma_follow_find_update(follows: Seq<FollowM>, i: int, f: FollowM, actor: crate::ids::RidM, target: usize)
    requires
        0 <= i < follows.len(),
        crate::store::find_follow_from(follows, actor, target, 0) == i,
        f.actor == actor,
        f.target == target,
    ensures
        crate::store::find_follow_from(follows.update(i, f), actor, target, 0) == i,
{
    let f2 = follows.update(i, f);
    lemma_find_follow_from(follows, actor, target, 0);
    lemma_find_follow_from(f2, actor, target, 0);
    let r = crate::store::find_follow_from(f2, actor, target, 0);
    assert(f2[i].actor == actor && f2[i].target == target);
    if r == -1 {
        assert(!(f2[i].actor == actor && f2[i].target == target));
    }
    if r < i {
        assert(f2[r] == follows[r]);
    }
}

/// A follow record pushed onto records without its key becomes the first
/// match.
proof fn lemma_follow_find_push(follows: Seq<FollowM>, f: FollowM, actor: crate::ids::RidM, target: usize)
    requires
        crate::store::find_follow_from(follows, actor, target, 0) == -1,
        f.actor == actor,
        f.target == target,
    ensures
        crate::store::find_follow_from(follows.push(f), actor, target, 0) == follows.len(),
{
    let f2 = follows.push(f);
    lemma_find_follow_from(follows, actor, target, 0);
    lemma_find_follow_from(f2, actor, target, 0);
    let r = crate::store::find_follow_from(f2, actor, target, 0);
    assert(f2[follows.len() as int].actor == actor);
    if r == -1 {
        assert(!(f2[follows.len() as int].actor == actor && f2[follows.len() as int].target
            == target));
    }
    if 0 <= r < follows.len() {
        assert(f2[r] == follows[r]);
    }
}

/// A handler hands back a well-formed store: remote ids stay unique, and
/// vote and follow records keep pointing at stored rows, one per key.
pub proof fn lemma_spec_apply_wf(s: StoreM, a: Activity, actor_idx: usize, target: usize)
    requires
        apply_pre(s, a, actor_idx, target),
    ensures
        spec_apply(s, a, actor_idx, target).0.wf(),
        spec_apply(s, a, actor_idx, target).0.ents.len() >= s.ents.len(),
{
    let s1 = spec_apply(s, a, actor_idx, target).0;
    match a.kind {
        ActivityKind::Create => {
            match a.embedded {
                Some(o) => {
                    if !s.contains_rid(o.id@) {
                        lemma_contains_exists(s, o.id@);
                        assert(s1.votes == s.votes);
                        assert(s1.follows == s.follows);
                        assert(s1.ents.len() == s.ents.len() + 1);
                        assert forall|i: int, j: int|
                            0 <= i < j < s1.ents.len() implies (
                        #[trigger] s1.ents[i]).remote_id != (#[trigger] s1.ents[j]).remote_id by {
                            if j < s.ents.len() {
                                assert(s.ents[i].remote_id != s.ents[j].remote_id);
                            } else {
                                assert(s1.ents[j].remote_id == o.id@);
                            }
                        }
                        assert forall|i: int|
                            0 <= i < s1.votes.len() implies (#[trigger] s1.votes[i]).target
                            < s1.ents.len() by {
                            assert(s.votes[i].target < s.ents.len());
                        }
                        assert forall|i: int|
                            0 <= i < s1.follows.len() implies (#[trigger] s1.follows[i]).target
                            < s1.ents.len() by {
                            assert(s.follows[i].target < s.ents.len());
                        }
                    }
                },
                None => {},
            }
        },
        ActivityKind::Like => {
            lemma_find_vote_from(s.votes, a.actor@, target, 0);
            if s.vote_idx(a.actor@, target) == -1 {
                assert forall|i: int, j: int|
                    0 <= i < j < s1.votes.len() implies !((#[trigger] s1.votes[i]).actor == (
                #[trigger] s1.votes[j]).actor && s1.votes[i].target == s1.votes[j].target) by {
                    if j < s.votes.len() {
                        assert(!(s.votes[i].actor == s.votes[j].actor && s.votes[i].target
                            == s.votes[j].target));
                    } else {
                        assert(!(s.votes[i].actor == a.actor@ && s.votes[i].target == target));
                    }
                }
            }
        },
        ActivityKind::Dislike => {
            lemma_find_vote_from(s.votes, a.actor@, target, 0);
            if s.vote_idx(a.actor@, target) == -1 {
                assert forall|i: int, j: int|
                    0 <= i < j < s1.votes.len() implies !((#[trigger] s1.votes[i]).actor == (
                #[trigger] s1.votes[j]).actor && s1.votes[i].target == s1.votes[j].target) by {
                    if j < s.votes.len() {
                        assert(!(s.votes[i].actor == s.votes[j].actor && s.votes[i].target
                            == s.votes[j].target));
                    } else {
                        assert(!(s.votes[i].actor == a.actor@ && s.votes[i].target == target));
                    }
                }
            }
        },
        ActivityKind::Undo(UndoTarget::Like) => {
            let i = s.vote_idx(a.actor@, target);
            lemma_find_vote_from(s.votes, a.actor@, target, 0);
            if i >= 0 {
                assert forall|x: int, y: int|
                    0 <= x < y < s1.votes.len() implies !((#[trigger] s1.votes[x]).actor == (
                #[trigger] s1.votes[y]).actor && s1.votes[x].target == s1.votes[y].target) by {
                    let x0 = if x < i { x } else { x + 1 };
                    let y0 = if y < i { y } else { y + 1 };
                    assert(s1.votes[x] == s.votes[x0]);
                    assert(s1.votes[y] == s.votes[y0]);
                    assert(!(s.votes[x0].actor == s.votes[y0].actor && s.votes[x0].target
                        == s.votes[y0].target));
                }
                assert forall|x: int| 0 <= x < s1.votes.len() implies (
                #[trigger] s1.votes[x]).target < s1.ents.len() by {
                    let x0 = if x < i { x } else { x + 1 };
                    assert(s1.votes[x] == s.votes[x0]);
                }
            }
        },
        ActivityKind::Follow => {
            lemma_find_follow_from(s.follows, a.actor@, target, 0);
            if s.follow_idx(a.actor@, target) == -1 {
                assert forall|i: int, j: int|
                    0 <= i < j < s1.follows.len() implies !((#[trigger] s1.follows[i]).actor == (
                #[trigger] s1.follows[j]).actor && s1.follows[i].target == s1.follows[j].target) by {
                    if j < s.follows.len() {
                        assert(!(s.follows[i].actor == s.follows[j].actor && s.follows[i].target
                            == s.follows[j].target));
                    } else {
                        assert(!(s.follows[i].actor == a.actor@ && s.follows[i].target == target));
                    }
                }
            }
        },
        ActivityKind::Update => {
            match a.embedded {
                Some(o) => {
                    assert(s1.ents.len() == s.ents.len());
                    assert forall|x: int|
                        0 <= x < s1.ents.len() implies (#[trigger] s1.ents[x]).remote_id
                        == s.ents[x].remote_id by {}
                    assert forall|i: int, j: int|
                        0 <= i < j < s1.ents.len() implies (#[trigger] s1.ents[i]).remote_id != (
                    #[trigger] s1.ents[j]).remote_id by {
                        assert(s.ents[i].remote_id != s.ents[j].remote_id);
                    }
                },
                None => {},
            }
        },
        ActivityKind::Delete => {
            assert forall|i: int, j: int|
                0 <= i < j < s1.ents.len() implies (#[trigger] s1.ents[i]).remote_id != (
            #[trigger] s1.ents[j]).remote_id by {
                assert(s.ents[i].remote_id != s.ents[j].remote_id);
            }
        },
        ActivityKind::Undo(UndoTarget::Delete) => {
            assert forall|i: int, j: int|
                0 <= i < j < s1.ents.len() implies (#[trigger] s1.ents[i]).remote_id != (
            #[trigger] s1.ents[j]).remote_id by {
                assert(s.ents[i].remote_id != s.ents[j].remote_id);
            }
        },
        ActivityKind::Accept => {
            let i = s.follow_idx(a.object@, actor_idx);
            lemma_find_follow_from(s.follows, a.object@, actor_idx, 0);
            if i >= 0 {
                assert forall|x: int, y: int|
                    0 <= x < y < s1.follows.len() implies !((#[trigger] s1.follows[x]).actor == (
                #[trigger] s1.follows[y]).actor && s1.follows[x].target == s1.follows[y].target) by {
                    assert(!(s.follows[x].actor == s.follows[y].actor && s.follows[x].target
                        == s.follows[y].target));
                }
                assert forall|x: int|
                    0 <= x < s1.follows.len() implies (#[trigger] s1.follows[x]).target
                    < s1.ents.len() by {
                    assert(s.follows[x].target < s.ents.len());
                }
            }
        },
        ActivityKind::Reject => {
            let i = s.follow_idx(a.object@, actor_idx);
            lemma_find_follow_from(s.follows, a.object@, actor_idx, 0);
            if i >= 0 {
                assert forall|x: int, y: int|
                    0 <= x < y < s1.follows.len() implies !((#[trigger] s1.follows[x]).actor == (
                #[trigger] s1.follows[y]).actor && s1.follows[x].target == s1.follows[y].target) by {
                    assert(!(s.follows[x].actor == s.follows[y].actor && s.follows[x].target
                        == s.follows[y].target));
                }
                assert forall|x: int|
                    0 <= x < s1.follows.len() implies (#[trigger] s1.follows[x]).target
                    < s1.ents.len() by {
                    assert(s.follows[x].target < s.ents.len());
                }
            }
        },
        _ => {},
    }
}

/// Idempotence under at-least-once delivery: applying the same activity a
/// second time to the store it produced leaves that store exactly as it
/// is, and a success stays a success.  A third application is the second
/// over again.
pub proof fn lemma_apply_idempotent(s: StoreM, a: Activity, actor_idx: usize, target: usize)
    ensures
        apply_pre(s, a, actor_idx, target) ==> {
            let (s1, r1) = spec_apply(s, a, actor_idx, target);
            let (s2, r2) = spec_apply(s1, a, actor_idx, target);
            &&& s2 == s1
            &&& (r1 is Ok ==> r2 is Ok)
        },
{
    if !apply_pre(s, a, actor_idx, target) {
        return;
    }
    let (s1, r1) = spec_apply(s, a, actor_idx, target);
    let (s2, r2) = spec_apply(s1, a, actor_idx, target);
    match a.kind {
        ActivityKind::Create => {
            match a.embedded {
                Some(o) => {
                    if !s.contains_rid(o.id@) {
                        lemma_contains_exists(s1, o.id@);
                        assert(s1.ents[s.ents.len() as int].remote_id == o.id@);
                        assert(s1.contains_rid(o.id@));
                    }
                },
                None => {},
            }
        },
        ActivityKind::Update => {
            match a.embedded {
                Some(o) => {
                    let e1 = EntM {
                        content: o.content@,
                        updated: a.published,
                        ..s.ents[target as int]
                    };
                    let e2 = EntM {
                        content: o.content@,
                        updated: a.published,
                        ..s1.ents[target as int]
                    };
                    assert(e2 == e1);
                    assert(s2.ents =~= s1.ents);
                    assert(s2 =~= s1);
                },
                None => {},
            }
        },
        ActivityKind::Delete => {
            let e1 = EntM { deleted: true, ..s.ents[target as int] };
            let e2 = EntM { deleted: true, ..s1.ents[target as int] };
            assert(e2 == e1);
            assert(s2.ents =~= s1.ents);
            assert(s2 =~= s1);
        },
        ActivityKind::Undo(UndoTarget::Delete) => {
            let e1 = EntM { deleted: false, ..s.ents[target as int] };
            let e2 = EntM { deleted: false, ..s1.ents[target as int] };
            assert(e2 == e1);
            assert(s2.ents =~= s1.ents);
            assert(s2 =~= s1);
        },
        ActivityKind::Undo(UndoTarget::Like) => {
            let i = s.vote_idx(a.actor@, target);
            lemma_find_vote_from(s.votes, a.actor@, target, 0);
            if i >= 0 {
                lemma_vote_find_remove(s.votes, i, a.actor@, target);
            }
        },
        ActivityKind::Like => {
            let i = s.vote_idx(a.actor@, target);
            lemma_find_vote_from(s.votes, a.actor@, target, 0);
            if i >= 0 {
                let v = VoteM { score: 1, ..s.votes[i] };
                lemma_vote_find_update(s.votes, i, v, a.actor@, target);
                assert(s1.votes[i] == v);
                assert(VoteM { score: 1, ..s1.votes[i] } == v);
                assert(s2.votes =~= s1.votes);
                assert(s2 =~= s1);
            } else {
                let v = VoteM { actor: a.actor@, target, score: 1 };
                lemma_vote_find_push(s.votes, v, a.actor@, target);
                let n = s.votes.len() as int;
                assert(s1.votes[n] == v);
                assert(VoteM { score: 1, ..s1.votes[n] } == v);
                assert(s2.votes =~= s1.votes);
                assert(s2 =~= s1);
            }
        },
        ActivityKind::Dislike => {
            let i = s.vote_idx(a.actor@, target);
            lemma_find_vote_from(s.votes, a.actor@, target, 0);
            if i >= 0 {
                let v = VoteM { score: (-1) as i8, ..s.votes[i] };
                lemma_vote_find_update(s.votes, i, v, a.actor@, target);
                assert(s1.votes[i] == v);
                assert(VoteM { score: (-1) as i8, ..s1.votes[i] } == v);
                assert(s2.votes =~= s1.votes);
                assert(s2 =~= s1);
            } else {
                let v = VoteM { actor: a.actor@, target, score: (-1) as i8 };
                lemma_vote_find_push(s.votes, v, a.actor@, target);
                let n = s.votes.len() as int;
                assert(s1.votes[n] == v);
                assert(VoteM { score: (-1) as i8, ..s1.votes[n] } == v);
                assert(s2.votes =~= s1.votes);
                assert(s2 =~= s1);
            }
        },
        ActivityKind::Follow => {
            lemma_find_follow_from(s.follows, a.actor@, target, 0);
            if s.follow_idx(a.actor@, target) == -1 {
                let f = FollowM {
                    actor: a.actor@,
                    target,
                    state: crate::store::FollowState::Pending,
                };
                lemma_follow_find_push(s.follows, f, a.actor@, target);
            }
        },
        ActivityKind::Accept => {
            let i = s.follow_idx(a.object@, actor_idx);
            lemma_find_follow_from(s.follows, a.object@, actor_idx, 0);
            if i >= 0 {
                let f = FollowM {
                    state: crate::store::FollowState::Accepted,
                    ..s.follows[i]
                };
                lemma_follow_find_update(s.follows, i, f, a.object@, actor_idx);
                assert(s1.follows[i] == f);
                assert(FollowM { state: crate::store::FollowState::Accepted, ..s1.follows[i] }
                    == f);
                assert(s2.follows =~= s1.follows);
                assert(s2 =~= s1);
            }
        },
        ActivityKind::Reject => {
            let i = s.follow_idx(a.object@, actor_idx);
            lemma_find_follow_from(s.follows, a.object@, actor_idx, 0);
            if i >= 0 {
                let f = FollowM {
                    state: crate::store::FollowState::Rejected,
                    ..s.follows[i]
                };
                lemma_follow_find_update(s.follows, i, f, a.object@, actor_idx);
                assert(s1.follows[i] == f);
                assert(FollowM { state: crate::store::FollowState::Rejected, ..s1.follows[i] }
                    == f);
                assert(s2.follows =~= s1.follows);
                assert(s2 =~= s1);
            }
        },
        ActivityKind::Announce => {},
    }
}

/// Commit before broadcast: a successful Delete reports its event only of
/// a store in which the target's delete flag is already true, so a
/// subscriber can never observe the event ahead of the durable flag.
pub proof fn lemma_commit_before_broadcast(s: StoreM, a: Activity, actor_idx: usize, target: usize)
    requires
        apply_pre(s, a, actor_idx, target),
        a.kind is Delete,
    ensures
        ({
            let (s1, r) = spec_apply(s, a, actor_idx, target);
            r matches Ok(Some(ev)) ==> {
                &&& ev.op == EventOp::Deleted
                &&& ev.local_id == target
                &&& s1.ents[ev.local_id as int].deleted == true
            }
        }),
{
}

} // verus!
