use activity_inbox::activity::{Activity, ActivityKind, ActorKind, UndoTarget};
use activity_inbox::errors::{PipelineError, ResolutionError, VerificationError};
use activity_inbox::handlers::EventOp;
use activity_inbox::ids::RemoteId;
use activity_inbox::pipeline::process as process_with_blocklist;
use activity_inbox::registry::Registry;
use activity_inbox::resolver::{FetchOutcome, RemoteNet, RemoteObject};
use activity_inbox::store::{EntityKind, FollowState, Store};

fn rid(path: &str) -> RemoteId {
    RemoteId::new("https://peer", path)
}

/// Runs the pipeline with an empty instance blocklist.
fn process(
    store: &mut Store,
    reg: &mut Registry,
    net: &RemoteNet,
    a: &Activity,
    signature_valid: bool,
) -> Result<Option<activity_inbox::handlers::Event>, PipelineError> {
    process_with_blocklist(store, reg, net, a, &Vec::new(), signature_valid)
}

fn activity(kind: ActivityKind, actor: RemoteId, actor_kind: ActorKind, object: RemoteId, object_kind: EntityKind) -> Activity {
    Activity {
        id: rid("/activities/1"),
        kind,
        actor,
        actor_kind,
        object,
        object_kind,
        embedded: None,
        inner: None,
        published: 10,
    }
}

/// A store that already mirrors alice, a community, a post and comment 9.
fn known_store() -> Store {
    let mut store = Store::new();
    store.upsert_entity(rid("/u/alice"), EntityKind::Person, "alice".to_string(), 1);
    store.upsert_entity(rid("/c/rust"), EntityKind::Community, "rust".to_string(), 1);
    store.upsert_entity(rid("/posts/1"), EntityKind::Post, "a post".to_string(), 1);
    store.upsert_entity(rid("/comments/9"), EntityKind::Comment, "a comment".to_string(), 1);
    store
}

#[test]
fn delete_known_comment_commits_then_broadcasts_and_redelivery_is_safe() {
    let mut store = known_store();
    let mut reg = Registry::new();
    let net = RemoteNet::new();
    let a = activity(
        ActivityKind::Delete,
        rid("/u/alice"),
        ActorKind::Person,
        rid("/comments/9"),
        EntityKind::Comment,
    );
    let ev = process(&mut store, &mut reg, &net, &a, true)
        .unwrap()
        .unwrap();
    assert_eq!(ev.op, EventOp::Deleted);
    assert_eq!(ev.entity_kind, EntityKind::Comment);
    assert_eq!(ev.local_id, 3);
    // The flag is durably true when the entity is re-read from the store.
    assert!(store.read(ev.local_id).unwrap().deleted);
    // Redelivering the identical activity leaves the state unchanged and
    // re-broadcasts without error.
    let ev2 = process(&mut store, &mut reg, &net, &a, true)
        .unwrap()
        .unwrap();
    assert_eq!(ev2.op, EventOp::Deleted);
    assert_eq!(ev2.local_id, 3);
    assert!(store.read(3).unwrap().deleted);
    assert_eq!(store.len(), 4);
}

#[test]
fn undo_restores_a_deleted_comment() {
    let mut store = known_store();
    let mut reg = Registry::new();
    let net = RemoteNet::new();
    let del = activity(
        ActivityKind::Delete,
        rid("/u/alice"),
        ActorKind::Person,
        rid("/comments/9"),
        EntityKind::Comment,
    );
    process(&mut store, &mut reg, &net, &del, true).unwrap();
    let undo = activity(
        ActivityKind::Undo(UndoTarget::Delete),
        rid("/u/alice"),
        ActorKind::Person,
        rid("/comments/9"),
        EntityKind::Comment,
    );
    let ev = process(&mut store, &mut reg, &net, &undo, true)
        .unwrap()
        .unwrap();
    assert_eq!(ev.op, EventOp::Restored);
    assert!(!store.read(3).unwrap().deleted);
    // A repeated undo is equally safe.
    process(&mut store, &mut reg, &net, &undo, true).unwrap();
    assert!(!store.read(3).unwrap().deleted);
}

#[test]
fn actor_of_foreign_authority_is_domain_mismatch() {
    let mut store = known_store();
    let mut reg = Registry::new();
    let net = RemoteNet::new();
    let a = activity(
        ActivityKind::Delete,
        RemoteId::new("https://evil", "/u/mallory"),
        ActorKind::Person,
        rid("/comments/9"),
        EntityKind::Comment,
    );
    let r = process(&mut store, &mut reg, &net, &a, true);
    assert_eq!(
        r,
        Err(PipelineError::Verification(
            VerificationError::DomainMismatch
        ))
    );
    assert!(!store.read(3).unwrap().deleted);
}

#[test]
fn embedded_object_of_foreign_authority_is_domain_mismatch() {
    let mut store = known_store();
    let mut reg = Registry::new();
    let net = RemoteNet::new();
    let mut a = activity(
        ActivityKind::Create,
        rid("/u/alice"),
        ActorKind::Person,
        rid("/comments/10"),
        EntityKind::Comment,
    );
    a.embedded = Some(RemoteObject {
        id: RemoteId::new("https://evil", "/comments/10"),
        kind: EntityKind::Comment,
        content: "spoofed".to_string(),
        parent: None,
        published: 10,
    });
    let r = process(&mut store, &mut reg, &net, &a, true);
    assert_eq!(
        r,
        Err(PipelineError::Verification(
            VerificationError::DomainMismatch
        ))
    );
    assert_eq!(store.len(), 4);
}

#[test]
fn bad_signature_is_rejected_without_mutation() {
    let mut store = known_store();
    let mut reg = Registry::new();
    let net = RemoteNet::new();
    let a = activity(
        ActivityKind::Delete,
        rid("/u/alice"),
        ActorKind::Person,
        rid("/comments/9"),
        EntityKind::Comment,
    );
    let r = process(&mut store, &mut reg, &net, &a, false);
    assert_eq!(
        r,
        Err(PipelineError::Verification(
            VerificationError::SignatureInvalid
        ))
    );
    assert!(!store.read(3).unwrap().deleted);
}

#[test]
fn unknown_unresolvable_actor_is_rejected() {
    let mut store = known_store();
    let mut reg = Registry::new();
    let net = RemoteNet::new();
    let a = activity(
        ActivityKind::Delete,
        rid("/u/nobody"),
        ActorKind::Person,
        rid("/comments/9"),
        EntityKind::Comment,
    );
    let r = process(&mut store, &mut reg, &net, &a, true);
    assert_eq!(
        r,
        Err(PipelineError::Verification(
            VerificationError::ActorUnresolvable
        ))
    );
}

#[test]
fn unsupported_combination_is_acknowledged_as_no_op() {
    let mut store = known_store();
    let mut reg = Registry::new();
    let net = RemoteNet::new();
    let a = activity(
        ActivityKind::Accept,
        rid("/u/alice"),
        ActorKind::Person,
        rid("/c/rust"),
        EntityKind::Community,
    );
    let r = process(&mut store, &mut reg, &net, &a, true);
    assert_eq!(r, Err(PipelineError::Unsupported));
    assert_eq!(store.len(), 4);
}

#[test]
fn create_without_document_is_malformed() {
    let mut store = known_store();
    let mut reg = Registry::new();
    let net = RemoteNet::new();
    let a = activity(
        ActivityKind::Create,
        rid("/u/alice"),
        ActorKind::Person,
        rid("/comments/10"),
        EntityKind::Comment,
    );
    let r = process(&mut store, &mut reg, &net, &a, true);
    assert_eq!(r, Err(PipelineError::Validation));
}

#[test]
fn update_of_unresolvable_object_fails_and_creates_nothing() {
    let mut store = known_store();
    let mut reg = Registry::new();
    let net = RemoteNet::new();
    let mut a = activity(
        ActivityKind::Update,
        rid("/u/alice"),
        ActorKind::Person,
        rid("/posts/404"),
        EntityKind::Post,
    );
    a.embedded = Some(RemoteObject {
        id: rid("/posts/404"),
        kind: EntityKind::Post,
        content: "edited".to_string(),
        parent: None,
        published: 10,
    });
    let r = process(&mut store, &mut reg, &net, &a, true);
    assert_eq!(
        r,
        Err(PipelineError::Resolution(ResolutionError::FetchFailed))
    );
    assert_eq!(store.len(), 4);
}

#[test]
fn update_overwrites_and_bumps_timestamp() {
    let mut store = known_store();
    let mut reg = Registry::new();
    let net = RemoteNet::new();
    let mut a = activity(
        ActivityKind::Update,
        rid("/u/alice"),
        ActorKind::Person,
        rid("/comments/9"),
        EntityKind::Comment,
    );
    a.embedded = Some(RemoteObject {
        id: rid("/comments/9"),
        kind: EntityKind::Comment,
        content: "edited comment".to_string(),
        parent: None,
        published: 10,
    });
    let ev = process(&mut store, &mut reg, &net, &a, true)
        .unwrap()
        .unwrap();
    assert_eq!(ev.op, EventOp::Edited);
    let e = store.read(3).unwrap();
    assert_eq!(e.content, "edited comment");
    assert_eq!(e.updated, 10);
    // A second identical delivery leaves the same state.
    process(&mut store, &mut reg, &net, &a, true).unwrap();
    let e2 = store.read(3).unwrap();
    assert_eq!(e2.content, "edited comment");
    assert_eq!(e2.updated, 10);
}

#[test]
fn create_inserts_once_and_redelivery_is_a_no_op() {
    let mut store = known_store();
    let mut reg = Registry::new();
    let net = RemoteNet::new();
    let mut a = activity(
        ActivityKind::Create,
        rid("/u/alice"),
        ActorKind::Person,
        rid("/comments/10"),
        EntityKind::Comment,
    );
    a.embedded = Some(RemoteObject {
        id: rid("/comments/10"),
        kind: EntityKind::Comment,
        content: "new comment".to_string(),
        parent: Some(rid("/posts/1")),
        published: 10,
    });
    let ev = process(&mut store, &mut reg, &net, &a, true)
        .unwrap()
        .unwrap();
    assert_eq!(ev.op, EventOp::Created);
    assert_eq!(ev.local_id, 4);
    assert_eq!(store.len(), 5);
    // Duplicate Create for an existing id: a no-op success, not an error.
    let r2 = process(&mut store, &mut reg, &net, &a, true).unwrap();
    assert!(r2.is_none());
    assert_eq!(store.len(), 5);
}

#[test]
fn like_records_one_vote_per_actor_and_dislike_replaces_it() {
    let mut store = known_store();
    let mut reg = Registry::new();
    let net = RemoteNet::new();
    let like = activity(
        ActivityKind::Like,
        rid("/u/alice"),
        ActorKind::Person,
        rid("/posts/1"),
        EntityKind::Post,
    );
    process(&mut store, &mut reg, &net, &like, true).unwrap();
    process(&mut store, &mut reg, &net, &like, true).unwrap();
    assert_eq!(store.votes.len(), 1);
    assert_eq!(store.votes[0].score, 1);
    let dislike = activity(
        ActivityKind::Dislike,
        rid("/u/alice"),
        ActorKind::Person,
        rid("/posts/1"),
        EntityKind::Post,
    );
    process(&mut store, &mut reg, &net, &dislike, true).unwrap();
    assert_eq!(store.votes.len(), 1);
    assert_eq!(store.votes[0].score, -1);
    let undo = activity(
        ActivityKind::Undo(UndoTarget::Like),
        rid("/u/alice"),
        ActorKind::Person,
        rid("/posts/1"),
        EntityKind::Post,
    );
    process(&mut store, &mut reg, &net, &undo, true).unwrap();
    assert_eq!(store.votes.len(), 0);
    // Undoing an already-undone vote stays a success and changes nothing.
    process(&mut store, &mut reg, &net, &undo, true).unwrap();
    assert_eq!(store.votes.len(), 0);
}

#[test]
fn follow_accept_moves_pending_to_accepted() {
    let mut store = known_store();
    let mut reg = Registry::new();
    let net = RemoteNet::new();
    let follow = activity(
        ActivityKind::Follow,
        rid("/u/alice"),
        ActorKind::Person,
        rid("/c/rust"),
        EntityKind::Community,
    );
    let ev = process(&mut store, &mut reg, &net, &follow, true)
        .unwrap()
        .unwrap();
    assert_eq!(ev.op, EventOp::FollowUpdated);
    assert_eq!(store.follows.len(), 1);
    assert_eq!(store.follows[0].state, FollowState::Pending);
    // A repeated Follow is idempotent.
    let r2 = process(&mut store, &mut reg, &net, &follow, true).unwrap();
    assert!(r2.is_none());
    assert_eq!(store.follows.len(), 1);
    // The community accepts: its Accept names the follower as object.
    let accept = activity(
        ActivityKind::Accept,
        rid("/c/rust"),
        ActorKind::Community,
        rid("/u/alice"),
        EntityKind::Person,
    );
    process(&mut store, &mut reg, &net, &accept, true).unwrap();
    assert_eq!(store.follows[0].state, FollowState::Accepted);
    // Accepting again is idempotent.
    process(&mut store, &mut reg, &net, &accept, true).unwrap();
    assert_eq!(store.follows.len(), 1);
    assert_eq!(store.follows[0].state, FollowState::Accepted);
}

#[test]
fn reject_moves_pending_to_rejected() {
    let mut store = known_store();
    let mut reg = Registry::new();
    let net = RemoteNet::new();
    let follow = activity(
        ActivityKind::Follow,
        rid("/u/alice"),
        ActorKind::Person,
        rid("/c/rust"),
        EntityKind::Community,
    );
    process(&mut store, &mut reg, &net, &follow, true).unwrap();
    let reject = activity(
        ActivityKind::Reject,
        rid("/c/rust"),
        ActorKind::Community,
        rid("/u/alice"),
        EntityKind::Person,
    );
    process(&mut store, &mut reg, &net, &reject, true).unwrap();
    assert_eq!(store.follows[0].state, FollowState::Rejected);
}

#[test]
fn announce_redispatches_the_inner_activity() {
    let mut store = known_store();
    let mut reg = Registry::new();
    let net = RemoteNet::new();
    let inner = activity(
        ActivityKind::Delete,
        rid("/u/alice"),
        ActorKind::Person,
        rid("/comments/9"),
        EntityKind::Comment,
    );
    let mut announce = activity(
        ActivityKind::Announce,
        rid("/c/rust"),
        ActorKind::Community,
        rid("/comments/9"),
        EntityKind::Comment,
    );
    announce.inner = Some(Box::new(inner));
    let ev = process(&mut store, &mut reg, &net, &announce, true)
        .unwrap()
        .unwrap();
    assert_eq!(ev.op, EventOp::Deleted);
    assert!(store.read(3).unwrap().deleted);
}

#[test]
fn announce_without_inner_activity_is_malformed() {
    let mut store = known_store();
    let mut reg = Registry::new();
    let net = RemoteNet::new();
    let announce = activity(
        ActivityKind::Announce,
        rid("/c/rust"),
        ActorKind::Community,
        rid("/comments/9"),
        EntityKind::Comment,
    );
    let r = process(&mut store, &mut reg, &net, &announce, true);
    assert_eq!(r, Err(PipelineError::Validation));
}

#[test]
fn delete_of_object_stored_under_other_kind_is_type_mismatch() {
    let mut store = known_store();
    let mut reg = Registry::new();
    let net = RemoteNet::new();
    let a = activity(
        ActivityKind::Delete,
        rid("/u/alice"),
        ActorKind::Person,
        rid("/posts/1"),
        EntityKind::Comment,
    );
    let r = process(&mut store, &mut reg, &net, &a, true);
    assert_eq!(
        r,
        Err(PipelineError::Resolution(ResolutionError::TypeMismatch))
    );
}

#[test]
fn delete_fetches_an_unknown_comment_before_deleting_it() {
    let mut store = known_store();
    let mut reg = Registry::new();
    let mut net = RemoteNet::new();
    let comment = rid("/comments/77");
    net.push(
        comment.clone(),
        FetchOutcome::Fetched(RemoteObject {
            id: comment.clone(),
            kind: EntityKind::Comment,
            content: "remote comment".to_string(),
            parent: Some(rid("/posts/1")),
            published: 5,
        }),
    );
    let a = activity(
        ActivityKind::Delete,
        rid("/u/alice"),
        ActorKind::Person,
        comment.clone(),
        EntityKind::Comment,
    );
    let ev = process(&mut store, &mut reg, &net, &a, true)
        .unwrap()
        .unwrap();
    assert_eq!(ev.op, EventOp::Deleted);
    assert_eq!(store.len(), 5);
    assert!(store.read(ev.local_id).unwrap().deleted);
}

#[test]
fn actor_from_blocked_instance_is_rejected() {
    let mut store = known_store();
    let mut reg = Registry::new();
    let net = RemoteNet::new();
    let a = activity(
        ActivityKind::Delete,
        rid("/u/alice"),
        ActorKind::Person,
        rid("/comments/9"),
        EntityKind::Comment,
    );
    let blocked = vec!["https://peer".to_string()];
    let r = process_with_blocklist(&mut store, &mut reg, &net, &a, &blocked, true);
    assert_eq!(
        r,
        Err(PipelineError::Verification(
            VerificationError::ActorUnresolvable
        ))
    );
    assert!(!store.read(3).unwrap().deleted);
}

#[test]
fn delete_of_cyclically_referenced_object_hits_the_recursion_limit() {
    let mut store = known_store();
    let mut reg = Registry::new();
    let mut net = RemoteNet::new();
    let comment = rid("/comments/77");
    let a_id = rid("/posts/a");
    let b_id = rid("/posts/b");
    net.push(
        comment.clone(),
        FetchOutcome::Fetched(RemoteObject {
            id: comment.clone(),
            kind: EntityKind::Comment,
            content: "c".to_string(),
            parent: Some(a_id.clone()),
            published: 5,
        }),
    );
    net.push(
        a_id.clone(),
        FetchOutcome::Fetched(RemoteObject {
            id: a_id.clone(),
            kind: EntityKind::Post,
            content: "a".to_string(),
            parent: Some(b_id.clone()),
            published: 5,
        }),
    );
    net.push(
        b_id.clone(),
        FetchOutcome::Fetched(RemoteObject {
            id: b_id.clone(),
            kind: EntityKind::Post,
            content: "b".to_string(),
            parent: Some(a_id.clone()),
            published: 5,
        }),
    );
    let del = activity(
        ActivityKind::Delete,
        rid("/u/alice"),
        ActorKind::Person,
        comment,
        EntityKind::Comment,
    );
    let r = process(&mut store, &mut reg, &net, &del, true);
    assert_eq!(
        r,
        Err(PipelineError::Resolution(
            ResolutionError::RecursionLimitExceeded
        ))
    );
    // Nothing half-resolved was committed.
    assert_eq!(store.len(), 4);
}

#[test]
fn delete_of_object_on_a_third_instance_is_domain_mismatch() {
    let mut store = known_store();
    let mut reg = Registry::new();
    let net = RemoteNet::new();
    // The actor owns its id's authority, but the object it claims to
    // delete lives on another instance entirely.
    let a = activity(
        ActivityKind::Delete,
        rid("/u/alice"),
        ActorKind::Person,
        RemoteId::new("https://elsewhere", "/comments/5"),
        EntityKind::Comment,
    );
    let r = process(&mut store, &mut reg, &net, &a, true);
    assert_eq!(
        r,
        Err(PipelineError::Verification(
            VerificationError::DomainMismatch
        ))
    );
    assert_eq!(store.len(), 4);
}

#[test]
fn liking_an_object_on_another_instance_is_allowed() {
    let mut store = known_store();
    let mut reg = Registry::new();
    let mut net = RemoteNet::new();
    // A vote names another party's object; no ownership rule applies.
    let far_post = RemoteId::new("https://elsewhere", "/posts/7");
    net.push(
        far_post.clone(),
        FetchOutcome::Fetched(RemoteObject {
            id: far_post.clone(),
            kind: EntityKind::Post,
            content: "far away".to_string(),
            parent: None,
            published: 3,
        }),
    );
    let like = activity(
        ActivityKind::Like,
        rid("/u/alice"),
        ActorKind::Person,
        far_post,
        EntityKind::Post,
    );
    let ev = process(&mut store, &mut reg, &net, &like, true)
        .unwrap()
        .unwrap();
    assert_eq!(ev.op, EventOp::Voted);
    assert_eq!(store.votes.len(), 1);
    assert_eq!(store.len(), 5);
}
