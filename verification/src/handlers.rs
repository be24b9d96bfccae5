//! Per-kind activity handlers.
//!
//! Each supported activity kind is one state transition of the local store:
//! a pure function of the verified activity and the already-resolved
//! referenced entities.  [`spec_apply`] is that function stated over the
//! store's mathematical value; [`apply_activity`] performs it and is proven
//! to return exactly what [`spec_apply`] says, so redelivery questions are
//! settled once, at the specification.  A handler reports at most one event
//! for the broadcaster, and only together with the committed new store.

use vstd::prelude::*;
use crate::activity::{Activity, ActivityKind, ActorKind, UndoTarget};
use crate::errors::PipelineError;
use crate::ids::RidM;
use crate::store::{EntM, EntityKind, FollowM, FollowState, Store, StoreM, VoteM};

verus! {

/// The operation a broadcast event reports.
#[derive(Clone, Copy, Debug, PartialEq, Eq, Structural)]
pub enum EventOp {
    Created,
    Edited,
    Deleted,
    Restored,
    Voted,
    VoteRemoved,
    FollowUpdated,
}

/// What the broadcaster publishes to live clients after a commit.
#[derive(Debug, PartialEq)]
pub struct Event {
    pub entity_kind: EntityKind,
    pub local_id: usize,
    pub op: EventOp,
    pub payload: String,
}

/// The mathematical value of an [`Event`].
#[verifier::ext_equal]
pub struct EventM {
    pub entity_kind: EntityKind,
    pub local_id: usize,
    pub op: EventOp,
    pub payload: Seq<char>,
}

impl View for Event {
    type V = EventM;

    open spec fn view(&self) -> EventM {
        EventM {
            entity_kind: self.entity_kind,
            local_id: self.local_id,
            op: self.op,
            payload: self.payload@,
        }
    }
}

/// The handler's verdict, with the event lifted to its mathematical value.
pub open spec fn apply_res_m(r: Result<Option<Event>, PipelineError>) -> Result<
    Option<EventM>,
    PipelineError,
> {
    match r {
        Ok(Some(e)) => Ok(Some(e@)),
        Ok(None) => Ok(None),
        Err(e) => Err(e),
    }
}

/// Which (activity kind, actor kind) pairs have a handler.
pub open spec fn supported(kind: ActivityKind, actor: ActorKind) -> bool {
    match (kind, actor) {
        (ActivityKind::Create, ActorKind::Person) => true,
        (ActivityKind::Update, ActorKind::Person) => true,
        (ActivityKind::Delete, ActorKind::Person) => true,
        (ActivityKind::Undo(_), ActorKind::Person) => true,
        (ActivityKind::Like, ActorKind::Person) => true,
        (ActivityKind::Dislike, ActorKind::Person) => true,
        (ActivityKind::Follow, ActorKind::Person) => true,
        (ActivityKind::Accept, ActorKind::Community) => true,
        (ActivityKind::Reject, ActorKind::Community) => true,
        (ActivityKind::Announce, ActorKind::Community) => true,
        _ => false,
    }
}

/// Exec twin of [`supported`]; an unknown combination is acknowledged and
/// ignored, never fatal.
pub fn dispatch_supported(kind: ActivityKind, actor: ActorKind) -> (r: bool)
    ensures
        r == supported(kind, actor),
{
    match (kind, actor) {
        (ActivityKind::Create, ActorKind::Person) => true,
        (ActivityKind::Update, ActorKind::Person) => true,
        (ActivityKind::Delete, ActorKind::Person) => true,
        (ActivityKind::Undo(_), ActorKind::Person) => true,
        (ActivityKind::Like, ActorKind::Person) => true,
        (ActivityKind::Dislike, ActorKind::Person) => true,
        (ActivityKind::Follow, ActorKind::Person) => true,
        (ActivityKind::Accept, ActorKind::Community) => true,
        (ActivityKind::Reject, ActorKind::Community) => true,
        (ActivityKind::Announce, ActorKind::Community) => true,
        _ => false,
    }
}

/// Setting the soft-delete flag of one row.
pub open spec fn set_deleted_m(s: StoreM, target: usize, deleted: bool) -> StoreM {
    StoreM {
        ents: s.ents.update(target as int, EntM { deleted, ..s.ents[target as int] }),
        ..s
    }
}

/// Overwriting a row's mutable fields and bumping its timestamp.
pub open spec fn overwrite_m(s: StoreM, target: usize, content: Seq<char>, updated: u64) -> StoreM {
    StoreM {
        ents: s.ents.update(
            target as int,
            EntM { content, updated, ..s.ents[target as int] },
        ),
        ..s
    }
}

/// Recording a vote, replacing any prior vote by the same actor.
pub open spec fn vote_upsert_m(s: StoreM, actor: RidM, target: usize, score: i8) -> StoreM {
    let i = s.vote_idx(actor, target);
    if i >= 0 {
        StoreM { votes: s.votes.update(i, VoteM { score, ..s.votes[i] }), ..s }
    } else {
        StoreM { votes: s.votes.push(VoteM { actor, target, score }), ..s }
    }
}

/// Removing a vote, if one exists.
pub open spec fn vote_remove_m(s: StoreM, actor: RidM, target: usize) -> StoreM {
    let i = s.vote_idx(actor, target);
    if i >= 0 {
        StoreM { votes: s.votes.remove(i), ..s }
    } else {
        s
    }
}

/// Setting the state of an existing follow record.
pub open spec fn follow_set_m(s: StoreM, actor: RidM, target: usize, st: FollowState) -> StoreM {
    let i = s.follow_idx(actor, target);
    if i >= 0 {
        StoreM { follows: s.follows.update(i, FollowM { state: st, ..s.follows[i] }), ..s }
    } else {
        s
    }
}

/// What the caller must have established: the store is well-formed and the
/// resolved actor — and, for every kind but Create, the resolved target —
/// is a stored row.
pub open spec fn apply_pre(s: StoreM, a: Activity, actor_idx: usize, target: usize) -> bool {
    &&& s.wf()
    &&& actor_idx < s.ents.len()
    &&& !(a.kind is Create) ==> target < s.ents.len()
}

/// The state transition of one verified activity over the store value.
/// Duplicate work is a no-op by construction: a Create for a stored id, a
/// Follow that already has a record, an Accept of anything but a stored
/// record change nothing; Delete, Undo and votes overwrite idempotently
/// and re-broadcast their event on redelivery.  An Announce is not a
/// transition of its own (the pipeline re-dispatches its inner activity)
/// and an Update without its document is rejected as malformed.
pub open spec fn spec_apply(s: StoreM, a: Activity, actor_idx: usize, target: usize) -> (
    StoreM,
    Result<Option<EventM>, PipelineError>,
) {
    match a.kind {
        ActivityKind::Create => match a.embedded {
            Some(o) => {
                if s.contains_rid(o.id@) {
                    (s, Ok(None))
                } else {
                    (
                        StoreM {
                            ents: s.ents.push(
                                EntM {
                                    remote_id: o.id@,
                                    kind: o.kind,
                                    content: o.content@,
                                    deleted: false,
                                    updated: a.published,
                                },
                            ),
                            ..s
                        },
                        Ok(
                            Some(
                                EventM {
                                    entity_kind: o.kind,
                                    local_id: s.ents.len() as usize,
                                    op: EventOp::Created,
                                    payload: o.content@,
                                },
                            ),
                        ),
                    )
                }
            },
            None => (s, Err(PipelineError::Validation)),
        },
        ActivityKind::Update => match a.embedded {
            Some(o) => (
                overwrite_m(s, target, o.content@, a.published),
                Ok(
                    Some(
                        EventM {
                            entity_kind: s.ents[target as int].kind,
                            local_id: target,
                            op: EventOp::Edited,
                            payload: o.content@,
                        },
                    ),
                ),
            ),
            None => (s, Err(PipelineError::Validation)),
        },
        ActivityKind::Delete => (
            set_deleted_m(s, target, true),
            Ok(
                Some(
                    EventM {
                        entity_kind: s.ents[target as int].kind,
                        local_id: target,
                        op: EventOp::Deleted,
                        payload: Seq::empty(),
                    },
                ),
            ),
        ),
        ActivityKind::Undo(UndoTarget::Delete) => (
            set_deleted_m(s, target, false),
            Ok(
                Some(
                    EventM {
                        entity_kind: s.ents[target as int].kind,
                        local_id: target,
                        op: EventOp::Restored,
                        payload: Seq::empty(),
                    },
                ),
            ),
        ),
        ActivityKind::Undo(UndoTarget::Like) => (
            vote_remove_m(s, a.actor@, target),
            Ok(
                Some(
                    EventM {
                        entity_kind: s.ents[target as int].kind,
                        local_id: target,
                        op: EventOp::VoteRemoved,
                        payload: Seq::empty(),
                    },
                ),
            ),
        ),
        ActivityKind::Like => (
            vote_upsert_m(s, a.actor@, target, 1),
            Ok(
                Some(
                    EventM {
                        entity_kind: s.ents[target as int].kind,
                        local_id: target,
                        op: EventOp::Voted,
                        payload: Seq::empty(),
                    },
                ),
            ),
        ),
        ActivityKind::Dislike => (
            vote_upsert_m(s, a.actor@, target, (-1) as i8),
            Ok(
                Some(
                    EventM {
                        entity_kind: s.ents[target as int].kind,
                        local_id: target,
                        op: EventOp::Voted,
                        payload: Seq::empty(),
                    },
                ),
            ),
        ),
        ActivityKind::Follow => {
            if s.follow_idx(a.actor@, target) >= 0 {
                (s, Ok(None))
            } else {
                (
                    StoreM {
                        follows: s.follows.push(
                            FollowM { actor: a.actor@, target, state: FollowState::Pending },
                        ),
                        ..s
                    },
                    Ok(
                        Some(
                            EventM {
                                entity_kind: s.ents[target as int].kind,
                                local_id: target,
                                op: EventOp::FollowUpdated,
                                payload: Seq::empty(),
                            },
                        ),
                    ),
                )
            }
        },
        ActivityKind::Accept => {
            if s.follow_idx(a.object@, actor_idx) >= 0 {
                (
                    follow_set_m(s, a.object@, actor_idx, FollowState::Accepted),
                    Ok(
                        Some(
                            EventM {
                                entity_kind: s.ents[actor_idx as int].kind,
                                local_id: actor_idx,
                                op: EventOp::FollowUpdated,
                                payload: Seq::empty(),
                            },
                        ),
                    ),
                )
            } else {
                (s, Ok(None))
            }
        },
        ActivityKind::Reject => {
            if s.follow_idx(a.object@, actor_idx) >= 0 {
                (
                    follow_set_m(s, a.object@, actor_idx, FollowState::Rejected),
                    Ok(
                        Some(
                            EventM {
                                entity_kind: s.ents[actor_idx as int].kind,
                                local_id: actor_idx,
                                op: EventOp::FollowUpdated,
                                payload: Seq::empty(),
                            },
                        ),
                    ),
                )
            } else {
                (s, Ok(None))
            }
        },
        ActivityKind::Announce => (s, Err(PipelineError::Unsupported)),
    }
}

/// Every event a handler reports names a row of the new store.
pub proof fn lemma_apply_event_bound(s: StoreM, a: Activity, actor_idx: usize, target: usize)
    requires
        apply_pre(s, a, actor_idx, target),
    ensures
        ({
            let (s1, r) = spec_apply(s, a, actor_idx, target);
            r matches Ok(Some(ev)) ==> ev.local_id < s1.ents.len()
        }),
{
}

/// Performs the state transition of one verified activity, whose actor —
/// and target, for every kind but Create — the resolver has already
/// stored.  Returns exactly the event [`spec_apply`] names, and only after
/// the store holds the new state.
pub fn apply_activity(store: &mut Store, a: &Activity, actor_idx: usize, target: usize) -> (r:
    Result<Option<Event>, PipelineError>)
    requires
        apply_pre(old(store)@, *a, actor_idx, target),
    ensures
        final(store)@.wf(),
        final(store)@ == spec_apply(old(store)@, *a, actor_idx, target).0,
        apply_res_m(r) == spec_apply(old(store)@, *a, actor_idx, target).1,
{
    let ghost s0 = store@;
    match a.kind {
        ActivityKind::Create => match &a.embedded {
            Some(o) => {
                match store.find_by_remote(&o.id) {
                    Some(_) => Ok(None),
                    None => {
                        let id = store.len();
                        store.upsert_entity(o.id.clone(), o.kind, o.content.clone(), a.published);
                        let ev = Event {
                            entity_kind: o.kind,
                            local_id: id,
                            op: EventOp::Created,
                            payload: o.content.clone(),
                        };
                        proof {
                            assert(store@ =~= spec_apply(s0, *a, actor_idx, target).0);
                            assert(apply_res_m(Ok(Some(ev))) =~= spec_apply(
                                s0,
                                *a,
                                actor_idx,
                                target,
                            ).1);
                        }
                        Ok(Some(ev))
                    },
                }
            },
            None => Err(PipelineError::Validation),
        },
        ActivityKind::Update => match &a.embedded {
            Some(o) => {
                let kind = match store.read(target) {
                    Some(e) => e.kind,
                    None => vstd::pervasive::unreached(),
                };
                store.overwrite_content(target, o.content.clone(), a.published);
                let ev = Event {
                    entity_kind: kind,
                    local_id: target,
                    op: EventOp::Edited,
                    payload: o.content.clone(),
                };
                proof {
                    assert(store@ =~= spec_apply(s0, *a, actor_idx, target).0);
                    assert(apply_res_m(Ok(Some(ev))) =~= spec_apply(s0, *a, actor_idx, target).1);
                }
                Ok(Some(ev))
            },
            None => Err(PipelineError::Validation),
        },
        ActivityKind::Delete => {
            let kind = match store.read(target) {
                Some(e) => e.kind,
                None => vstd::pervasive::unreached(),
            };
            store.set_deleted(target, true);
            let ev = Event {
                entity_kind: kind,
                local_id: target,
                op: EventOp::Deleted,
                payload: String::new(),
            };
            proof {
                assert(store@ =~= spec_apply(s0, *a, actor_idx, target).0);
                assert(apply_res_m(Ok(Some(ev))) =~= spec_apply(s0, *a, actor_idx, target).1);
            }
            Ok(Some(ev))
        },
        ActivityKind::Undo(UndoTarget::Delete) => {
            let kind = match store.read(target) {
                Some(e) => e.kind,
                None => vstd::pervasive::unreached(),
            };
            store.set_deleted(target, false);
            let ev = Event {
                entity_kind: kind,
                local_id: target,
                op: EventOp::Restored,
                payload: String::new(),
            };
            proof {
                assert(store@ =~= spec_apply(s0, *a, actor_idx, target).0);
                assert(apply_res_m(Ok(Some(ev))) =~= spec_apply(s0, *a, actor_idx, target).1);
            }
            Ok(Some(ev))
        },
        ActivityKind::Undo(UndoTarget::Like) => {
            let kind = match store.read(target) {
                Some(e) => e.kind,
                None => vstd::pervasive::unreached(),
            };
            store.vote_remove(&a.actor, target);
            let ev = Event {
                entity_kind: kind,
                local_id: target,
                op: EventOp::VoteRemoved,
                payload: String::new(),
            };
            proof {
                assert(store@ =~= spec_apply(s0, *a, actor_idx, target).0);
                assert(apply_res_m(Ok(Some(ev))) =~= spec_apply(s0, *a, actor_idx, target).1);
            }
            Ok(Some(ev))
        },
        ActivityKind::Like => {
            let kind = match store.read(target) {
                Some(e) => e.kind,
                None => vstd::pervasive::unreached(),
            };
            store.vote_upsert(a.actor.clone(), target, 1);
            let ev = Event {
                entity_kind: kind,
                local_id: target,
                op: EventOp::Voted,
                payload: String::new(),
            };
            proof {
                assert(store@ =~= spec_apply(s0, *a, actor_idx, target).0);
                assert(apply_res_m(Ok(Some(ev))) =~= spec_apply(s0, *a, actor_idx, target).1);
            }
            Ok(Some(ev))
        },
        ActivityKind::Dislike => {
            let kind = match store.read(target) {
                Some(e) => e.kind,
                None => vstd::pervasive::unreached(),
            };
            store.vote_upsert(a.actor.clone(), target, -1);
            let ev = Event {
                entity_kind: kind,
                local_id: target,
                op: EventOp::Voted,
                payload: String::new(),
            };
            proof {
                assert(store@ =~= spec_apply(s0, *a, actor_idx, target).0);
                assert(apply_res_m(Ok(Some(ev))) =~= spec_apply(s0, *a, actor_idx, target).1);
            }
            Ok(Some(ev))
        },
        ActivityKind::Follow => {
            match store.follow_find(&a.actor, target) {
                Some(_) => Ok(None),
                None => {
                    let kind = match store.read(target) {
                        Some(e) => e.kind,
                        None => vstd::pervasive::unreached(),
                    };
                    store.follow_request(a.actor.clone(), target);
                    let ev = Event {
                        entity_kind: kind,
                        local_id: target,
                        op: EventOp::FollowUpdated,
                        payload: String::new(),
                    };
                    proof {
                        assert(store@ =~= spec_apply(s0, *a, actor_idx, target).0);
                        assert(apply_res_m(Ok(Some(ev))) =~= spec_apply(
                            s0,
                            *a,
                            actor_idx,
                            target,
                        ).1);
                    }
                    Ok(Some(ev))
                },
            }
        },
        ActivityKind::Accept => {
            match store.follow_find(&a.object, actor_idx) {
                Some(_) => {
                    let kind = match store.read(actor_idx) {
                        Some(e) => e.kind,
                        None => vstd::pervasive::unreached(),
                    };
                    store.follow_set_state(&a.object, actor_idx, FollowState::Accepted);
                    let ev = Event {
                        entity_kind: kind,
                        local_id: actor_idx,
                        op: EventOp::FollowUpdated,
                        payload: String::new(),
                    };
                    proof {
                        assert(store@ =~= spec_apply(s0, *a, actor_idx, target).0);
                        assert(apply_res_m(Ok(Some(ev))) =~= spec_apply(
                            s0,
                            *a,
                            actor_idx,
                            target,
                        ).1);
                    }
                    Ok(Some(ev))
                },
                None => Ok(None),
            }
        },
        ActivityKind::Reject => {
            match store.follow_find(&a.object, actor_idx) {
                Some(_) => {
                    let kind = match store.read(actor_idx) {
                        Some(e) => e.kind,
                        None => vstd::pervasive::unreached(),
                    };
                    store.follow_set_state(&a.object, actor_idx, FollowState::Rejected);
                    let ev = Event {
                        entity_kind: kind,
                        local_id: actor_idx,
                        op: EventOp::FollowUpdated,
                        payload: String::new(),
                    };
                    proof {
                        assert(store@ =~= spec_apply(s0, *a, actor_idx, target).0);
                        assert(apply_res_m(Ok(Some(ev))) =~= spec_apply(
                            s0,
                            *a,
                            actor_idx,
                            target,
                        ).1);
                    }
                    Ok(Some(ev))
                },
                None => Ok(None),
            }
        },
        ActivityKind::Announce => Err(PipelineError::Unsupported),
    }
}

} // verus!
