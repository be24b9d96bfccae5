use activity_inbox::errors::ResolutionError;
use activity_inbox::ids::RemoteId;
use activity_inbox::registry::Registry;
use activity_inbox::resolver::{
    resolve_with, FetchOutcome, RemoteNet, RemoteObject, Resolver, Step,
};
use activity_inbox::store::{EntityKind, Store};

fn obj(id: &RemoteId, kind: EntityKind, parent: Option<RemoteId>) -> RemoteObject {
    RemoteObject {
        id: id.clone(),
        kind,
        content: "remote content".to_string(),
        parent,
        published: 1,
    }
}

#[test]
fn lookup_needs_no_fetch_and_no_budget() {
    let mut store = Store::new();
    let mut reg = Registry::new();
    let net = RemoteNet::new();
    let id = RemoteId::new("https://peer", "/posts/1");
    store.upsert_entity(id.clone(), EntityKind::Post, "p".to_string(), 1);
    let mut budget = 0u32;
    let r = resolve_with(&mut store, &mut reg, &net, &id, EntityKind::Post, &mut budget);
    assert_eq!(r, Ok(0));
    assert_eq!(budget, 0);
    assert_eq!(store.len(), 1);
}

#[test]
fn fetch_inserts_object_and_its_reference_chain() {
    let mut store = Store::new();
    let mut reg = Registry::new();
    let mut net = RemoteNet::new();
    let comment = RemoteId::new("https://peer", "/comments/9");
    let post = RemoteId::new("https://peer", "/posts/1");
    let community = RemoteId::new("https://peer", "/c/rust");
    net.push(
        comment.clone(),
        FetchOutcome::Fetched(obj(&comment, EntityKind::Comment, Some(post.clone()))),
    );
    net.push(
        post.clone(),
        FetchOutcome::Fetched(obj(&post, EntityKind::Post, Some(community.clone()))),
    );
    net.push(
        community.clone(),
        FetchOutcome::Fetched(obj(&community, EntityKind::Community, None)),
    );
    let mut budget = 8u32;
    let r = resolve_with(
        &mut store,
        &mut reg,
        &net,
        &comment,
        EntityKind::Comment,
        &mut budget,
    );
    let idx = r.unwrap();
    assert_eq!(store.len(), 3);
    let e = store.read(idx).unwrap();
    assert_eq!(e.kind, EntityKind::Comment);
    assert!(store.find_by_remote(&post).is_some());
    assert!(store.find_by_remote(&community).is_some());
    assert_eq!(budget, 8 - 3);
}

#[test]
fn cycle_terminates_with_recursion_limit_and_commits_nothing() {
    let mut store = Store::new();
    let mut reg = Registry::new();
    let mut net = RemoteNet::new();
    let a = RemoteId::new("https://peer", "/objects/a");
    let b = RemoteId::new("https://peer", "/objects/b");
    net.push(
        a.clone(),
        FetchOutcome::Fetched(obj(&a, EntityKind::Post, Some(b.clone()))),
    );
    net.push(
        b.clone(),
        FetchOutcome::Fetched(obj(&b, EntityKind::Post, Some(a.clone()))),
    );
    let mut budget = 8u32;
    let r = resolve_with(&mut store, &mut reg, &net, &a, EntityKind::Post, &mut budget);
    assert_eq!(r, Err(ResolutionError::RecursionLimitExceeded));
    assert_eq!(store.len(), 0);
    assert_eq!(budget, 0);
}

#[test]
fn missing_remote_object_fails_fetch() {
    let mut store = Store::new();
    let mut reg = Registry::new();
    let net = RemoteNet::new();
    let id = RemoteId::new("https://peer", "/posts/404");
    let mut budget = 8u32;
    let r = resolve_with(&mut store, &mut reg, &net, &id, EntityKind::Post, &mut budget);
    assert_eq!(r, Err(ResolutionError::FetchFailed));
    assert_eq!(store.len(), 0);
}

#[test]
fn malformed_payload_is_invalid_remote_object() {
    let mut store = Store::new();
    let mut reg = Registry::new();
    let mut net = RemoteNet::new();
    let id = RemoteId::new("https://peer", "/posts/1");
    net.push(id.clone(), FetchOutcome::Malformed);
    let mut budget = 8u32;
    let r = resolve_with(&mut store, &mut reg, &net, &id, EntityKind::Post, &mut budget);
    assert_eq!(r, Err(ResolutionError::InvalidRemoteObject));
    assert_eq!(store.len(), 0);
}

#[test]
fn object_served_under_wrong_id_is_invalid() {
    let mut store = Store::new();
    let mut reg = Registry::new();
    let mut net = RemoteNet::new();
    let id = RemoteId::new("https://peer", "/posts/1");
    let other = RemoteId::new("https://peer", "/posts/2");
    net.push(
        id.clone(),
        FetchOutcome::Fetched(obj(&other, EntityKind::Post, None)),
    );
    let mut budget = 8u32;
    let r = resolve_with(&mut store, &mut reg, &net, &id, EntityKind::Post, &mut budget);
    assert_eq!(r, Err(ResolutionError::InvalidRemoteObject));
    assert_eq!(store.len(), 0);
}

#[test]
fn stored_entity_of_other_kind_is_type_mismatch() {
    let mut store = Store::new();
    let mut reg = Registry::new();
    let net = RemoteNet::new();
    let id = RemoteId::new("https://peer", "/posts/1");
    store.upsert_entity(id.clone(), EntityKind::Post, "p".to_string(), 1);
    let mut budget = 8u32;
    let r = resolve_with(
        &mut store,
        &mut reg,
        &net,
        &id,
        EntityKind::Comment,
        &mut budget,
    );
    assert_eq!(r, Err(ResolutionError::TypeMismatch));
}

#[test]
fn exhausted_budget_is_recursion_limit() {
    let mut store = Store::new();
    let mut reg = Registry::new();
    let mut net = RemoteNet::new();
    let id = RemoteId::new("https://peer", "/posts/1");
    net.push(
        id.clone(),
        FetchOutcome::Fetched(obj(&id, EntityKind::Post, None)),
    );
    let mut budget = 0u32;
    let r = resolve_with(&mut store, &mut reg, &net, &id, EntityKind::Post, &mut budget);
    assert_eq!(r, Err(ResolutionError::RecursionLimitExceeded));
    assert_eq!(store.len(), 0);
}

#[test]
fn twenty_concurrent_resolutions_fetch_once() {
    let mut store = Store::new();
    let mut reg = Registry::new();
    let id = RemoteId::new("https://peer", "/objects/1");
    let mut resolvers: Vec<Resolver> = Vec::new();
    for _ in 0..20 {
        resolvers.push(Resolver::new(&id, EntityKind::Post, 8));
    }
    let mut leaders = 0usize;
    let mut awaiting = 0usize;
    for r in resolvers.iter_mut() {
        match r.step(&mut store, &mut reg) {
            Step::NeedFetch(_) => leaders += 1,
            Step::AwaitOther(_) => awaiting += 1,
            _ => panic!("unexpected step outcome"),
        }
    }
    assert_eq!(leaders, 1);
    assert_eq!(awaiting, 19);
    // The one leader completes its fetch.
    let fetched = FetchOutcome::Fetched(obj(&id, EntityKind::Post, None));
    assert!(resolvers[0]
        .on_fetch(&store, &mut reg, &id, fetched)
        .is_none());
    match resolvers[0].step(&mut store, &mut reg) {
        Step::Done(i) => assert_eq!(i, 0),
        _ => panic!("leader should finish"),
    }
    assert_eq!(store.len(), 1);
    // Every awaiting caller now observes the same stored entity.
    for r in resolvers.iter_mut().skip(1) {
        match r.step(&mut store, &mut reg) {
            Step::Done(i) => assert_eq!(i, 0),
            _ => panic!("awaiting caller should finish without fetching"),
        }
    }
    assert_eq!(store.len(), 1);
}

#[test]
fn registry_collapses_duplicate_flights() {
    let mut reg = Registry::new();
    let id = RemoteId::new("https://peer", "/objects/1");
    assert!(reg.begin(&id));
    assert!(!reg.begin(&id));
    assert!(reg.contains(&id));
    reg.finish(&id);
    assert!(!reg.contains(&id));
    assert!(reg.begin(&id));
}
