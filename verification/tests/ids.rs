use activity_inbox::activity::{Activity, ActivityKind, ActorKind};
use activity_inbox::errors::VerificationError;
use activity_inbox::ids::{parse_remote_id, rid_eq, same_authority, RemoteId};
use activity_inbox::store::EntityKind;
use activity_inbox::verification::{verify, verify_domains};

#[test]
fn parse_splits_authority_and_path() {
    let rid = parse_remote_id("https://example.com/u/alice").unwrap();
    assert_eq!(rid.authority, "https://example.com");
    assert_eq!(rid.path, "/u/alice");
}

#[test]
fn parse_accepts_bare_authority() {
    let rid = parse_remote_id("https://example.com").unwrap();
    assert_eq!(rid.authority, "https://example.com");
    assert_eq!(rid.path, "");
}

#[test]
fn parse_keeps_port_in_authority() {
    let rid = parse_remote_id("http://pictrs:8080/image/x").unwrap();
    assert_eq!(rid.authority, "http://pictrs:8080");
    assert_eq!(rid.path, "/image/x");
}

#[test]
fn parse_rejects_missing_scheme() {
    assert!(parse_remote_id("example.com/u/alice").is_none());
}

#[test]
fn parse_rejects_empty_host() {
    assert!(parse_remote_id("https:///u/alice").is_none());
}

#[test]
fn equal_ids_compare_equal() {
    let a = RemoteId::new("https://peer", "/comments/9");
    let b = RemoteId::new("https://peer", "/comments/9");
    let c = RemoteId::new("https://peer", "/comments/10");
    assert!(rid_eq(&a, &b));
    assert!(!rid_eq(&a, &c));
}

#[test]
fn same_authority_ignores_path() {
    let a = RemoteId::new("https://peer", "/u/alice");
    let b = RemoteId::new("https://peer", "/activities/1");
    let c = RemoteId::new("https://other", "/u/alice");
    assert!(same_authority(&a, &b));
    assert!(!same_authority(&a, &c));
}

fn delete_activity(actor: RemoteId) -> Activity {
    Activity {
        id: RemoteId::new("https://peer", "/activities/1"),
        kind: ActivityKind::Delete,
        actor,
        actor_kind: ActorKind::Person,
        object: RemoteId::new("https://peer", "/comments/9"),
        object_kind: EntityKind::Comment,
        embedded: None,
        inner: None,
        published: 10,
    }
}

#[test]
fn matching_domains_verify() {
    let a = delete_activity(RemoteId::new("https://peer", "/u/alice"));
    assert!(verify_domains(&a).is_ok());
    assert!(verify(&a, &Vec::new(), true, true).is_ok());
}

#[test]
fn verification_order_is_domains_actor_signature() {
    let none: Vec<String> = Vec::new();
    let spoofed = delete_activity(RemoteId::new("https://evil", "/u/alice"));
    assert_eq!(
        verify(&spoofed, &none, false, false),
        Err(VerificationError::DomainMismatch)
    );
    let genuine = delete_activity(RemoteId::new("https://peer", "/u/alice"));
    assert_eq!(
        verify(&genuine, &none, false, false),
        Err(VerificationError::ActorUnresolvable)
    );
    let peer_blocked = vec!["https://peer".to_string()];
    assert_eq!(
        verify(&genuine, &peer_blocked, true, true),
        Err(VerificationError::ActorUnresolvable)
    );
    assert_eq!(
        verify(&genuine, &none, true, false),
        Err(VerificationError::SignatureInvalid)
    );
    assert_eq!(verify(&genuine, &none, true, true), Ok(()));
}

#[test]
fn foreign_object_reference_is_domain_mismatch_for_owned_kinds() {
    let mut a = delete_activity(RemoteId::new("https://peer", "/u/alice"));
    a.object = RemoteId::new("https://elsewhere", "/comments/5");
    assert_eq!(
        verify_domains(&a),
        Err(VerificationError::DomainMismatch)
    );
    // A vote on the same foreign object carries no ownership rule.
    a.kind = ActivityKind::Like;
    assert!(verify_domains(&a).is_ok());
}
