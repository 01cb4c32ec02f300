use greentic_state::inmemory::InMemoryStateStore;
use greentic_state::{Json, StateKey, StatePath, StateStore, TenantCtx};

const SECOND: i128 = 1_000_000_000;
const MILLISECOND: i128 = 1_000_000;

fn ctx() -> TenantCtx {
    TenantCtx::new("dev", "tenant")
}

fn num(n: i64) -> Json {
    Json::Number(serde_json::Number::from(n))
}

fn object(members: Vec<(&str, Json)>) -> Json {
    Json::Object(
        members
            .into_iter()
            .map(|(name, value)| (name.to_string(), value))
            .collect(),
    )
}

#[test]
fn in_memory_ttl_expires() {
    let mut store = InMemoryStateStore::new();
    let ctx = ctx();
    let prefix = "flow/ttl-in-memory";
    let key = StateKey::new("node/a");
    let start = 1_700_000_000 * SECOND;

    store
        .set_json_at(
            start,
            &ctx,
            prefix,
            &key,
            None,
            &object(vec![("ttl", Json::Bool(true))]),
            Some(1),
        )
        .expect("set");

    let value = store
        .get_json_at(start + 1_100 * MILLISECOND, &ctx, prefix, &key, None)
        .expect("get");
    assert!(value.is_none(), "expected value to expire");
}

#[test]
fn entry_lives_until_its_deadline() {
    let mut store = InMemoryStateStore::new();
    let ctx = ctx();
    let key = StateKey::new("node/a");
    let start = 1_700_000_000 * SECOND;
    store
        .set_json_at(start, &ctx, "flow", &key, None, &num(1), Some(2))
        .expect("set");
    assert_eq!(
        store
            .get_json_at(start + 2 * SECOND - 1, &ctx, "flow", &key, None)
            .expect("get"),
        Some(num(1))
    );
    assert_eq!(
        store
            .get_json_at(start + 2 * SECOND, &ctx, "flow", &key, None)
            .expect("get"),
        None
    );
}

#[test]
fn ttl_zero_clears_deadline() {
    let mut store = InMemoryStateStore::new();
    let ctx = ctx();
    let key = StateKey::new("node/a");
    store
        .set_json_at(0, &ctx, "flow", &key, None, &num(1), Some(5))
        .expect("set");
    store
        .set_json_at(SECOND, &ctx, "flow", &key, None, &num(2), Some(0))
        .expect("set");
    assert_eq!(
        store
            .get_json_at(1_000 * SECOND, &ctx, "flow", &key, None)
            .expect("get"),
        Some(num(2))
    );
}

#[test]
fn ttl_is_preserved_on_update_without_ttl() {
    let mut store = InMemoryStateStore::new();
    let ctx = ctx();
    let key = StateKey::new("node/a");
    store
        .set_json_at(0, &ctx, "flow", &key, None, &num(1), Some(60))
        .expect("set");
    store
        .set_json_at(30 * SECOND, &ctx, "flow", &key, None, &num(2), None)
        .expect("update");
    assert_eq!(
        store
            .get_json_at(60 * SECOND - 1, &ctx, "flow", &key, None)
            .expect("get"),
        Some(num(2)),
        "the update must not clear the entry before its deadline"
    );
    assert_eq!(
        store
            .get_json_at(60 * SECOND, &ctx, "flow", &key, None)
            .expect("get"),
        None,
        "the update must neither clear the deadline nor start it anew"
    );
}

#[test]
fn ttl_is_preserved_on_path_update() {
    let mut store = InMemoryStateStore::new();
    let ctx = ctx();
    let key = StateKey::new("node/a");
    let path = StatePath::from_pointer("/a");
    store
        .set_json_at(0, &ctx, "flow", &key, None, &object(vec![("a", num(1))]), Some(60))
        .expect("set");
    store
        .set_json_at(10 * SECOND, &ctx, "flow", &key, Some(&path), &num(2), None)
        .expect("update");
    assert_eq!(
        store
            .get_json_at(59 * SECOND, &ctx, "flow", &key, Some(&path))
            .expect("get"),
        Some(num(2))
    );
    assert_eq!(
        store
            .get_json_at(61 * SECOND, &ctx, "flow", &key, None)
            .expect("get"),
        None
    );
}

#[test]
fn positive_ttl_overwrites_deadline() {
    let mut store = InMemoryStateStore::new();
    let ctx = ctx();
    let key = StateKey::new("node/a");
    store
        .set_json_at(0, &ctx, "flow", &key, None, &num(1), Some(10))
        .expect("set");
    store
        .set_json_at(5 * SECOND, &ctx, "flow", &key, None, &num(2), Some(10))
        .expect("set");
    assert_eq!(
        store
            .get_json_at(14 * SECOND, &ctx, "flow", &key, None)
            .expect("get"),
        Some(num(2))
    );
    assert_eq!(
        store
            .get_json_at(15 * SECOND, &ctx, "flow", &key, None)
            .expect("get"),
        None
    );
}

#[test]
fn set_on_expired_entry_starts_afresh() {
    let mut store = InMemoryStateStore::new();
    let ctx = ctx();
    let key = StateKey::new("node/a");
    let path = StatePath::from_pointer("/b");
    store
        .set_json_at(0, &ctx, "flow", &key, None, &object(vec![("a", num(1))]), Some(1))
        .expect("set");
    store
        .set_json_at(2 * SECOND, &ctx, "flow", &key, Some(&path), &num(2), None)
        .expect("set");
    assert_eq!(
        store
            .get_json_at(1_000 * SECOND, &ctx, "flow", &key, None)
            .expect("get"),
        Some(object(vec![("b", num(2))]))
    );
}

#[test]
fn delete_reports_expired_entry_until_purged() {
    let ctx = ctx();
    let key = StateKey::new("node/a");

    let mut store = InMemoryStateStore::new();
    store
        .set_json_at(0, &ctx, "flow", &key, None, &num(1), Some(1))
        .expect("set");
    assert!(store.del(&ctx, "flow", &key).expect("delete"));

    let mut purged = InMemoryStateStore::new();
    purged
        .set_json_at(0, &ctx, "flow", &key, None, &num(1), Some(1))
        .expect("set");
    assert_eq!(
        purged
            .get_json_at(5 * SECOND, &ctx, "flow", &key, None)
            .expect("get"),
        None
    );
    assert!(!purged.del(&ctx, "flow", &key).expect("delete"));
}

#[test]
fn failed_path_set_leaves_document_and_deadline() {
    let mut store = InMemoryStateStore::new();
    let ctx = ctx();
    let key = StateKey::new("node/a");
    let path = StatePath::from_pointer("/foo");
    store
        .set_json_at(0, &ctx, "flow", &key, None, &Json::Array(vec![num(1)]), Some(10))
        .expect("set");
    let err = store
        .set_json_at(SECOND, &ctx, "flow", &key, Some(&path), &num(2), Some(1))
        .unwrap_err();
    assert_eq!(err.code, greentic_state::ErrorCode::InvalidInput);
    assert_eq!(
        store
            .get_json_at(2 * SECOND, &ctx, "flow", &key, None)
            .expect("get"),
        Some(Json::Array(vec![num(1)])),
        "the failed set must not bring the deadline forward"
    );
    assert_eq!(
        store
            .get_json_at(10 * SECOND, &ctx, "flow", &key, None)
            .expect("get"),
        None,
        "the failed set must not clear or push back the deadline"
    );
}

#[test]
fn failed_path_set_does_not_give_a_deadline() {
    let mut store = InMemoryStateStore::new();
    let ctx = ctx();
    let key = StateKey::new("node/a");
    let path = StatePath::from_pointer("/a/b");
    let doc = object(vec![("a", num(5))]);
    store
        .set_json_at(0, &ctx, "flow", &key, None, &doc, None)
        .expect("set");
    let err = store
        .set_json_at(SECOND, &ctx, "flow", &key, Some(&path), &num(2), Some(1))
        .unwrap_err();
    assert_eq!(err.code, greentic_state::ErrorCode::InvalidInput);
    assert_eq!(
        store
            .get_json_at(1_000 * SECOND, &ctx, "flow", &key, None)
            .expect("get"),
        Some(doc)
    );
}

#[test]
fn failed_path_set_with_ttl_zero_keeps_deadline() {
    let mut store = InMemoryStateStore::new();
    let ctx = ctx();
    let key = StateKey::new("node/a");
    let path = StatePath::from_pointer("/foo");
    store
        .set_json_at(0, &ctx, "flow", &key, None, &Json::Array(Vec::new()), Some(5))
        .expect("set");
    store
        .set_json_at(SECOND, &ctx, "flow", &key, Some(&path), &num(2), Some(0))
        .unwrap_err();
    assert_eq!(
        store
            .get_json_at(5 * SECOND, &ctx, "flow", &key, None)
            .expect("get"),
        None
    );
}

#[test]
fn clock_driven_set_with_ttl_is_readable_at_once() {
    let mut store = InMemoryStateStore::new();
    let ctx = ctx();
    let key = StateKey::new("node/a");
    store
        .set_json(&ctx, "flow", &key, None, &num(1), Some(3_600))
        .expect("set");
    assert_eq!(
        store.get_json(&ctx, "flow", &key, None).expect("get"),
        Some(num(1))
    );
    let long_ago = 1_000_000_000 * SECOND;
    assert_eq!(
        store
            .get_json_at(long_ago, &ctx, "flow", &key, None)
            .expect("get"),
        Some(num(1)),
        "the deadline lies after the year 2001"
    );
    let mut other = InMemoryStateStore::new();
    other
        .set_json(&ctx, "flow", &key, None, &num(1), Some(1))
        .expect("set");
    let far_future = 100_000_000_000 * SECOND;
    assert_eq!(
        other
            .get_json_at(far_future, &ctx, "flow", &key, None)
            .expect("get"),
        None,
        "the deadline lies before the year 5138"
    );
}

#[test]
fn in_memory_ttl_expires_on_the_clock() {
    let mut store = InMemoryStateStore::new();
    let ctx = ctx();
    let prefix = "flow/ttl-in-memory";
    let key = StateKey::new("node/a");

    store
        .set_json(
            &ctx,
            prefix,
            &key,
            None,
            &object(vec![("ttl", Json::Bool(true))]),
            Some(1),
        )
        .expect("set");
    assert!(store
        .get_json(&ctx, prefix, &key, None)
        .expect("get")
        .is_some());

    let started = std::time::Instant::now();
    while started.elapsed() < std::time::Duration::from_millis(1_100) {
        std::hint::spin_loop();
    }

    let value = store.get_json(&ctx, prefix, &key, None).expect("get");
    assert!(value.is_none(), "expected value to expire");
}
