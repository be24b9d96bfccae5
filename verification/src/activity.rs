//! The inbound activity envelope.
//!
//! A transport layer parses one inbound document into this envelope and
//! hands it to the pipeline; the envelope is immutable once received and
//! discarded when the pipeline finishes.

use vstd::prelude::*;
use crate::ids::RemoteId;
use crate::store::EntityKind;
use crate::resolver::RemoteObject;

verus! {

/// What an `Undo` activity reverses.
#[derive(Clone, Copy, Debug, PartialEq, Eq, Structural)]
pub enum UndoTarget {
    /// Reverses a delete: the target entity is restored.
    Delete,
    /// Reverses a like or dislike: the actor's vote record is removed.
    Like,
}

/// The closed set of activity kinds the pipeline understands.
#[derive(Clone, Copy, Debug, PartialEq, Eq, Structural)]
pub enum ActivityKind {
    Create,
    Update,
    Delete,
    Undo(UndoTarget),
    Like,
    Dislike,
    Follow,
    Accept,
    Reject,
    Announce,
}

/// The kind of identity that issued an activity.
#[derive(Clone, Copy, Debug, PartialEq, Eq, Structural)]
pub enum ActorKind {
    Person,
    Community,
}

/// One inbound activity.  `id` is globally unique and doubles as the
/// deduplication key under at-least-once delivery; `object` names the
/// entity acted on and `object_kind` the kind the sender claims for it;
/// `embedded` carries the object's own document where the kind ships one
/// (Create and Update); `inner` carries the wrapped activity of an
/// Announce.
pub struct Activity {
    pub id: RemoteId,
    pub kind: ActivityKind,
    pub actor: RemoteId,
    pub actor_kind: ActorKind,
    pub object: RemoteId,
    pub object_kind: EntityKind,
    pub embedded: Option<RemoteObject>,
    pub inner: Option<Box<Activity>>,
    pub published: u64,
}

/// The kind of entity an actor of the given kind is mirrored as.
pub open spec fn kind_of_actor(k: ActorKind) -> EntityKind {
    match k {
        ActorKind::Person => EntityKind::Person,
        ActorKind::Community => EntityKind::Community,
    }
}

/// Exec twin of [`kind_of_actor`].
pub fn actor_entity_kind(k: ActorKind) -> (r: EntityKind)
    ensures
        r == kind_of_actor(k),
{
    match k {
        ActorKind::Person => EntityKind::Person,
        ActorKind::Community => EntityKind::Community,
    }
}

/// The kind of the one mandatory nested reference an entity of the given
/// kind carries: a comment belongs to a post, a post to a community, a
/// community to the person who created it; a person stands alone.
pub open spec fn parent_kind_of(k: EntityKind) -> EntityKind {
    match k {
        EntityKind::Comment => EntityKind::Post,
        EntityKind::Post => EntityKind::Community,
        EntityKind::Community => EntityKind::Person,
        EntityKind::Person => EntityKind::Person,
    }
}

/// Exec twin of [`parent_kind_of`].
pub fn parent_entity_kind(k: EntityKind) -> (r: EntityKind)
    ensures
        r == parent_kind_of(k),
{
    match k {
        EntityKind::Comment => EntityKind::Post,
        EntityKind::Post => EntityKind::Community,
        EntityKind::Community => EntityKind::Person,
        EntityKind::Person => EntityKind::Person,
    }
}

} // verus!
