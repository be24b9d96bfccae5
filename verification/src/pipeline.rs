//! The inbound pipeline.
//!
//! One inbound activity runs through verification, resolution of the
//! referenced remote entities, dispatch and its handler, and reports the
//! event to broadcast — or a classified error, in which case no state
//! transition was committed: a failed run can only have mirrored entities
//! the resolver fetched, never touched an existing row, vote or follow.
//! Each run carries its own fetch budget; budgets are never shared between
//! runs.

use vstd::prelude::*;
use crate::activity::{
    Activity, ActivityKind, actor_entity_kind, kind_of_actor, parent_entity_kind, parent_kind_of,
};
use crate::errors::{PipelineError, ResolutionError, VerificationError};
use crate::handlers::{
    Event, EventM, EventOp, apply_activity, apply_res_m, dispatch_supported,
    lemma_apply_event_bound, spec_apply, supported,
};
use crate::registry::Registry;
use crate::resolver::{RemoteNet, lemma_extends_trans, resolve_with, store_extends, upsert_one};
use crate::store::{Store, StoreM};
use crate::verification::{check_apub_id_valid, domains_ok, id_allowed, verify_domains};

verus! {

/// Outbound fetches allowed while processing one inbound activity.  The
/// bound is fixed here rather than inferred: it caps adversarial fetch
/// storms and reference cycles alike, and an Announce's inner activity is
/// processed under a fresh bound of its own.
pub const FETCH_BUDGET: u32 = 25;

/// The actor is mirrored with the kind it claims and is on no blocked
/// instance, so neither verification nor the actor's resolution can refuse
/// and neither changes the store.
pub open spec fn actor_ready(s: StoreM, blocked: Seq<String>, a: Activity) -> bool {
    &&& s.contains_rid(a.actor@)
    &&& s.ents[s.idx_of(a.actor@)].kind == kind_of_actor(a.actor_kind)
    &&& id_allowed(a.actor@, blocked)
}

/// What a run on a ready activity commits and reports: its handler's
/// transition on the already-stored rows — for an Announce, the inner
/// activity's transition.
pub open spec fn ready_outcome(s: StoreM, a: Activity) -> (StoreM, Result<
    Option<EventM>,
    PipelineError,
>)
    decreases a,
{
    match a.kind {
        ActivityKind::Announce => match a.inner {
            Some(b) => ready_outcome(s, *b),
            None => (s, Err(PipelineError::Validation)),
        },
        ActivityKind::Create => spec_apply(s, a, s.idx_of(a.actor@) as usize, 0),
        _ => spec_apply(
            s,
            a,
            s.idx_of(a.actor@) as usize,
            s.idx_of(a.object@) as usize,
        ),
    }
}

/// Everything the activity refers to is already mirrored, with the kind it
/// should have: the actor, who is on no blocked instance; for a Create,
/// the carried document and its mandatory reference; for an Announce, one
/// plain inner activity that is itself ready; for every other kind, the
/// target object.  On such an activity the pipeline owes success: nothing
/// needs to be fetched and no handler refuses.
pub open spec fn ready(s: StoreM, blocked: Seq<String>, a: Activity) -> bool
    decreases a,
{
    &&& actor_ready(s, blocked, a)
    &&& match a.kind {
        ActivityKind::Create => a.embedded matches Some(o) && (o.parent matches Some(p)
            ==> s.contains_rid(p@) && s.ents[s.idx_of(p@)].kind == parent_kind_of(o.kind)),
        ActivityKind::Update => a.embedded is Some && s.contains_rid(a.object@)
            && s.ents[s.idx_of(a.object@)].kind == a.object_kind,
        ActivityKind::Announce => a.inner matches Some(b) && !((*b).kind is Announce)
            && domains_ok(*b) && supported((*b).kind, (*b).actor_kind) && ready(s, blocked, *b),
        _ => s.contains_rid(a.object@) && s.ents[s.idx_of(a.object@)].kind == a.object_kind,
    }
}

/// Runs one inbound activity through the whole pipeline: the domain rule,
/// the actor's resolution, the transport signature verdict, dispatch, the
/// resolution of the referenced object, and the handler.  An activity whose
/// actor does not own its id is always rejected as `DomainMismatch`, before
/// anything is fetched or written.  Any error means no state transition was
/// applied — the store at most gained entities the resolver mirrored.  An
/// Announce re-dispatches its inner activity with the announcing community
/// as relay.  A reported event always names a row of the committed store,
/// and a successful Delete's event is reported only with the target's
/// delete flag already true in the store.
pub fn process(
    store: &mut Store,
    reg: &mut Registry,
    net: &RemoteNet,
    a: &Activity,
    blocked_instances: &Vec<String>,
    signature_valid: bool,
) -> (r: Result<Option<Event>, PipelineError>)
    requires
        old(store)@.wf(),
        old(reg).wf(),
        old(reg)@.len() == 0,
    ensures
        final(store)@.wf(),
        final(reg).wf(),
        final(reg)@.len() == 0,
        r is Err ==> store_extends(final(store)@, old(store)@),
        !domains_ok(*a) ==> r == Err::<Option<Event>, PipelineError>(
            PipelineError::Verification(VerificationError::DomainMismatch),
        ) && final(store)@ == old(store)@,
        domains_ok(*a) && !id_allowed(a.actor@, blocked_instances@) ==> r == Err::<
            Option<Event>,
            PipelineError,
        >(PipelineError::Verification(VerificationError::ActorUnresolvable)) && final(store)@
            == old(store)@,
        domains_ok(*a) && ready(old(store)@, blocked_instances@, *a) && !signature_valid ==> r
            == Err::<Option<Event>, PipelineError>(
            PipelineError::Verification(VerificationError::SignatureInvalid),
        ) && final(store)@ == old(store)@,
        domains_ok(*a) && ready(old(store)@, blocked_instances@, *a) && signature_valid
            && !supported(a.kind, a.actor_kind) ==> r == Err::<Option<Event>, PipelineError>(
            PipelineError::Unsupported,
        ) && final(store)@ == old(store)@,
        domains_ok(*a) && ready(old(store)@, blocked_instances@, *a) && signature_valid
            && supported(a.kind, a.actor_kind) ==> r is Ok,
        domains_ok(*a) && ready(old(store)@, blocked_instances@, *a) && signature_valid
            && supported(a.kind, a.actor_kind) ==> final(store)@ == ready_outcome(
            old(store)@,
            *a,
        ).0 && apply_res_m(r) == ready_outcome(old(store)@, *a).1,
        (domains_ok(*a) && actor_ready(old(store)@, blocked_instances@, *a) && signature_valid
            && supported(a.kind, a.actor_kind) && !(a.kind is Create) && !(a.kind is Announce)
            && !old(store)@.contains_rid(a.object@) && (net.lookup(a.object@) is NotFound
            || net.lookup(a.object@) is NetworkError)) ==> r == Err::<Option<Event>, PipelineError>(
            PipelineError::Resolution(ResolutionError::FetchFailed),
        ) && final(store)@ == old(store)@,
        (domains_ok(*a) && actor_ready(old(store)@, blocked_instances@, *a) && signature_valid
            && supported(a.kind, a.actor_kind) && !(a.kind is Create) && !(a.kind is Announce)
            && !old(store)@.contains_rid(a.object@) && (net.lookup(a.object@) is Malformed || (
            net.lookup(a.object@) matches crate::resolver::OutM::Fetched(o) && o.id != a.object@)))
            ==> r == Err::<Option<Event>, PipelineError>(
            PipelineError::Resolution(ResolutionError::InvalidRemoteObject),
        ) && final(store)@ == old(store)@,
        (domains_ok(*a) && actor_ready(old(store)@, blocked_instances@, *a) && signature_valid
            && supported(a.kind, a.actor_kind) && !(a.kind is Create) && !(a.kind is Announce)
            && !old(store)@.contains_rid(a.object@) && crate::resolver::never_grounds(
            *net,
            old(store)@,
        ) && net.lookup(a.object@) is Fetched) ==> r == Err::<Option<Event>, PipelineError>(
            PipelineError::Resolution(ResolutionError::RecursionLimitExceeded),
        ) && final(store)@ == old(store)@,
        net.lookup(a.object@) matches crate::resolver::OutM::Fetched(o) ==> ((domains_ok(*a)
            && actor_ready(old(store)@, blocked_instances@, *a) && signature_valid && supported(
            a.kind,
            a.actor_kind,
        ) && !(a.kind is Create) && !(a.kind is Announce) && !old(store)@.contains_rid(a.object@)
            && o.id == a.object@ && o.parent is None && o.kind == a.object_kind) ==> ({
            let s2 = upsert_one(old(store)@, o);
            let actor_idx = old(store)@.idx_of(a.actor@) as usize;
            let t = old(store)@.ents.len() as usize;
            &&& final(store)@ == spec_apply(s2, *a, actor_idx, t).0
            &&& apply_res_m(r) == spec_apply(s2, *a, actor_idx, t).1
        })),
        r matches Ok(Some(ev)) ==> ev@.local_id < final(store)@.ents.len(),
        a.kind is Delete ==> (r matches Ok(Some(ev)) ==> ev@.op == EventOp::Deleted
            && final(store)@.ents[ev@.local_id as int].deleted == true),
    decreases *a,
{
    let ghost s0 = old(store)@;
    match verify_domains(a) {
        Err(e) => {
            return Err(PipelineError::Verification(e));
        },
        Ok(()) => {},
    }
    if !check_apub_id_valid(&a.actor, blocked_instances) {
        return Err(PipelineError::Verification(VerificationError::ActorUnresolvable));
    }
    let mut budget: u32 = FETCH_BUDGET;
    let actor_idx = match resolve_with(
        store,
        reg,
        net,
        &a.actor,
        actor_entity_kind(a.actor_kind),
        &mut budget,
    ) {
        Ok(i) => i,
        Err(_) => {
            return Err(PipelineError::Verification(VerificationError::ActorUnresolvable));
        },
    };
    let ghost s1 = store@;
    if !signature_valid {
        return Err(PipelineError::Verification(VerificationError::SignatureInvalid));
    }
    if !dispatch_supported(a.kind, a.actor_kind) {
        return Err(PipelineError::Unsupported);
    }
    match a.kind {
        ActivityKind::Announce => {
            match &a.inner {
                Some(inner) => {
                    let r = process(store, reg, net, &**inner, blocked_instances, true);
                    proof {
                        if r is Err {
                            lemma_extends_trans(s0, s1, store@);
                        }
                    }
                    r
                },
                None => Err(PipelineError::Validation),
            }
        },
        ActivityKind::Create => {
            match &a.embedded {
                Some(o) => {
                    match &o.parent {
                        Some(p) => {
                            let pk = parent_entity_kind(o.kind);
                            match resolve_with(store, reg, net, p, pk, &mut budget) {
                                Ok(_) => {},
                                Err(e) => {
                                    proof {
                                        lemma_extends_trans(s0, s1, store@);
                                    }
                                    return Err(PipelineError::Resolution(e));
                                },
                            }
                        },
                        None => {},
                    }
                    let ghost s2 = store@;
                    let r = apply_activity(store, a, actor_idx, 0);
                    proof {
                        lemma_apply_event_bound(s2, *a, actor_idx, 0);
                        if r is Err {
                            lemma_extends_trans(s0, s1, s2);
                            lemma_extends_trans(s0, s2, store@);
                        }
                    }
                    r
                },
                None => Err(PipelineError::Validation),
            }
        },
        _ => {
            match resolve_with(store, reg, net, &a.object, a.object_kind, &mut budget) {
                Ok(t) => {
                    let ghost s2 = store@;
                    let r = apply_activity(store, a, actor_idx, t);
                    proof {
                        lemma_apply_event_bound(s2, *a, actor_idx, t);
                        if r is Err {
                            lemma_extends_trans(s0, s1, s2);
                            lemma_extends_trans(s0, s2, store@);
                        }
                    }
                    r
                },
                Err(e) => {
                    proof {
                        lemma_extends_trans(s0, s1, store@);
                    }
                    Err(PipelineError::Resolution(e))
                },
            }
        },
    }
}

} // verus!
