//! Activity verification.
//!
//! Before anything is mutated, an inbound activity must prove that its
//! claimed origin is self-consistent and authentic.  The domain-match rule
//! blocks spoofing: a compromised or malicious peer cannot issue activities
//! on behalf of an identity it does not own, because the activity id, its
//! actor and its embedded object must all carry the same authority.  The
//! transport-level signature check itself is a pluggable capability of the
//! transport layer; its verdict, and whether the actor resolved, are inputs
//! here.

use vstd::prelude::*;
use crate::activity::{Activity, ActivityKind, UndoTarget};
use crate::errors::VerificationError;
use crate::ids::{same_authority, RemoteId, RidM};

verus! {

/// A remote id may be interacted with when its authority is on none of
/// the blocked instances.
pub open spec fn id_allowed(id: RidM, blocked: Seq<String>) -> bool {
    forall|i: int| 0 <= i < blocked.len() ==> (#[trigger] blocked[i])@ != id.authority
}

/// Checks a remote id against the instance blocklist; an activity whose
/// actor fails this is flagged invalid and never processed.
pub fn check_apub_id_valid(id: &RemoteId, blocked_instances: &Vec<String>) -> (r: bool)
    ensures
        r == id_allowed(id@, blocked_instances@),
{
    let n = blocked_instances.len();
    let mut i: usize = 0;
    while i < n
        invariant
            n == blocked_instances@.len(),
            i <= n,
            forall|j: int| 0 <= j < i ==> (#[trigger] blocked_instances@[j])@ != id@.authority,
        decreases n - i,
    {
        if blocked_instances[i] == id.authority {
            return false;
        }
        i += 1;
    }
    true
}

/// Whether the activity acts on the actor's own content, so that its
/// object reference must carry the actor's own authority.  Creating,
/// updating, deleting and restoring are only ever done to one's own
/// objects; a vote, a follow, its answer or a relay names another party's
/// object and carries no such rule.
pub open spec fn object_owned_by_actor(kind: ActivityKind) -> bool {
    match kind {
        ActivityKind::Create => true,
        ActivityKind::Update => true,
        ActivityKind::Delete => true,
        ActivityKind::Undo(UndoTarget::Delete) => true,
        _ => false,
    }
}

/// Exec twin of [`object_owned_by_actor`].
pub fn object_check_required(kind: ActivityKind) -> (r: bool)
    ensures
        r == object_owned_by_actor(kind),
{
    match kind {
        ActivityKind::Create => true,
        ActivityKind::Update => true,
        ActivityKind::Delete => true,
        ActivityKind::Undo(UndoTarget::Delete) => true,
        _ => false,
    }
}

/// The domain-match rule: the actor owns the activity id's authority; an
/// embedded object, if any, carries the actor's authority; and where the
/// activity acts on the actor's own content, the object reference does
/// too.
pub open spec fn domains_ok(a: Activity) -> bool {
    &&& a.actor@.authority == a.id@.authority
    &&& (a.embedded matches Some(o) ==> o.id@.authority == a.actor@.authority)
    &&& (object_owned_by_actor(a.kind) ==> a.object@.authority == a.actor@.authority)
}

/// Checks the domain-match rule; any mismatch is a hard rejection,
/// whatever else the payload holds.
pub fn verify_domains(a: &Activity) -> (r: Result<(), VerificationError>)
    ensures
        r is Ok <==> domains_ok(*a),
        r matches Err(e) ==> e == VerificationError::DomainMismatch,
{
    if !same_authority(&a.actor, &a.id) {
        return Err(VerificationError::DomainMismatch);
    }
    match &a.embedded {
        Some(o) => {
            if !same_authority(&o.id, &a.actor) {
                return Err(VerificationError::DomainMismatch);
            }
        },
        None => {},
    }
    if object_check_required(a.kind) && !same_authority(&a.object, &a.actor) {
        return Err(VerificationError::DomainMismatch);
    }
    Ok(())
}

/// Checks the authenticity rules in order — domains, the actor's standing
/// against the blocklist, the actor's identity, then the signature — and
/// accepts the activity exactly when all of them hold.  `actor_resolvable`
/// and `signature_valid` report what the resolver and the transport's
/// signature capability found.
pub fn verify(
    a: &Activity,
    blocked_instances: &Vec<String>,
    actor_resolvable: bool,
    signature_valid: bool,
) -> (r: Result<(), VerificationError>)
    ensures
        !domains_ok(*a) ==> r == Err::<(), VerificationError>(VerificationError::DomainMismatch),
        domains_ok(*a) && !id_allowed(a.actor@, blocked_instances@) ==> r == Err::<
            (),
            VerificationError,
        >(VerificationError::ActorUnresolvable),
        domains_ok(*a) && id_allowed(a.actor@, blocked_instances@) && !actor_resolvable ==> r
            == Err::<(), VerificationError>(VerificationError::ActorUnresolvable),
        domains_ok(*a) && id_allowed(a.actor@, blocked_instances@) && actor_resolvable
            && !signature_valid ==> r == Err::<(), VerificationError>(
            VerificationError::SignatureInvalid,
        ),
        domains_ok(*a) && id_allowed(a.actor@, blocked_instances@) && actor_resolvable
            && signature_valid ==> r is Ok,
{
    match verify_domains(a) {
        Err(e) => Err(e),
        Ok(()) => {
            if !check_apub_id_valid(&a.actor, blocked_instances) {
                Err(VerificationError::ActorUnresolvable)
            } else if !actor_resolvable {
                Err(VerificationError::ActorUnresolvable)
            } else if !signature_valid {
                Err(VerificationError::SignatureInvalid)
            } else {
                Ok(())
            }
        },
    }
}

} // verus!
