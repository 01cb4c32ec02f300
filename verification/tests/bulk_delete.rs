use greentic_state::inmemory::InMemoryStateStore;
use greentic_state::{Json, StateKey, StateStore, TenantCtx};

fn ctx() -> TenantCtx {
    TenantCtx::new("dev", "tenant")
}

fn num(n: i64) -> Json {
    Json::Number(serde_json::Number::from(n))
}

fn object(members: Vec<(&str, Json)>) -> Json {
    Json::Object(
        members
            .into_iter()
            .map(|(name, value)| (name.to_string(), value))
            .collect(),
    )
}

#[test]
fn in_memory_bulk_delete() {
    let mut store = InMemoryStateStore::new();
    let ctx = ctx();
    let prefix = "flow/delete";
    let key_a = StateKey::new("node/a");
    let key_b = StateKey::new("node/b");
    let other_prefix = "flow/other";

    store
        .set_json(&ctx, prefix, &key_a, None, &object(vec![("a", num(1))]), None)
        .expect("set a");
    store
        .set_json(&ctx, prefix, &key_b, None, &object(vec![("b", num(2))]), None)
        .expect("set b");
    store
        .set_json(
            &ctx,
            other_prefix,
            &StateKey::new("node/c"),
            None,
            &object(vec![("c", num(3))]),
            None,
        )
        .expect("set other");

    let removed = store.del_prefix(&ctx, prefix).expect("delete prefix");
    assert_eq!(removed, 2);

    assert!(store
        .get_json(&ctx, prefix, &key_a, None)
        .expect("get a")
        .is_none());
    assert!(store
        .get_json(&ctx, prefix, &key_b, None)
        .expect("get b")
        .is_none());
    assert!(store
        .get_json(&ctx, other_prefix, &StateKey::new("node/c"), None)
        .expect("get c")
        .is_some());
}

#[test]
fn bulk_delete_of_empty_prefix_removes_nothing() {
    let mut store = InMemoryStateStore::new();
    let ctx = ctx();
    store
        .set_json(&ctx, "flow/a", &StateKey::new("k"), None, &num(1), None)
        .expect("set");
    assert_eq!(store.del_prefix(&ctx, "flow/b").expect("delete prefix"), 0);
    assert_eq!(store.del_prefix(&ctx, "flow").expect("delete prefix"), 0);
    assert_eq!(
        store
            .get_json(&ctx, "flow/a", &StateKey::new("k"), None)
            .expect("get"),
        Some(num(1))
    );
}

#[test]
fn bulk_delete_twice_counts_once() {
    let mut store = InMemoryStateStore::new();
    let ctx = ctx();
    for name in ["a", "b", "c"] {
        store
            .set_json(&ctx, "flow", &StateKey::new(name), None, &num(1), None)
            .expect("set");
    }
    assert_eq!(store.del_prefix(&ctx, "flow").expect("delete prefix"), 3);
    assert_eq!(store.del_prefix(&ctx, "flow").expect("delete prefix"), 0);
}

#[test]
fn bulk_delete_counts_expired_entries() {
    let mut store = InMemoryStateStore::new();
    let ctx = ctx();
    let key = StateKey::new("node/a");
    store
        .set_json_at(0, &ctx, "flow", &key, None, &num(1), Some(1))
        .expect("set");
    assert_eq!(
        store
            .get_json_at(500_000_000, &ctx, "flow", &key, None)
            .expect("get"),
        Some(num(1))
    );
    assert_eq!(store.del_prefix(&ctx, "flow").expect("delete prefix"), 1);
}

#[test]
fn bulk_delete_spares_same_suffix_under_other_prefix() {
    let mut store = InMemoryStateStore::new();
    let ctx = ctx();
    let key = StateKey::new("node/a");
    store
        .set_json(&ctx, "flow/one", &key, None, &num(1), None)
        .expect("set one");
    store
        .set_json(&ctx, "flow/two", &key, None, &num(2), None)
        .expect("set two");
    assert_eq!(store.del_prefix(&ctx, "flow/one").expect("delete prefix"), 1);
    assert_eq!(
        store.get_json(&ctx, "flow/two", &key, None).expect("get"),
        Some(num(2))
    );
}
