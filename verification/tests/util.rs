use greentic_state::util::{get_at_path, parse_index, set_at_path};
use greentic_state::{ErrorCode, Json, StatePath};

fn num(n: i64) -> Json {
    Json::Number(serde_json::Number::from(n))
}

fn text(s: &str) -> Json {
    Json::String(s.to_string())
}

fn object(members: Vec<(&str, Json)>) -> Json {
    Json::Object(
        members
            .into_iter()
            .map(|(name, value)| (name.to_string(), value))
            .collect(),
    )
}

#[test]
fn root_retrieves_original_value() {
    let value = object(vec![("a", num(1))]);
    let path = StatePath::default();
    let extracted = get_at_path(&value, &path).unwrap();
    assert_eq!(extracted, &object(vec![("a", num(1))]));
}

#[test]
fn nested_insert_and_get() {
    let mut value = Json::Null;
    let path = StatePath::from_pointer("/a/0/b");
    set_at_path(&mut value, &path, text("leaf")).expect("set");
    let extracted = get_at_path(&value, &path).unwrap();
    assert_eq!(extracted, &text("leaf"));
}

#[test]
fn invalid_array_index_errors() {
    let mut value = Json::Array(Vec::new());
    let path = StatePath::from_pointer("/foo");
    let err = set_at_path(&mut value, &path, text("leaf")).unwrap_err();
    assert_eq!(err.code, ErrorCode::InvalidInput);
}

#[test]
fn nested_insert_builds_containers() {
    let mut value = Json::Null;
    let path = StatePath::from_pointer("/a/0/b");
    set_at_path(&mut value, &path, text("leaf")).expect("set");
    assert_eq!(
        value,
        object(vec![(
            "a",
            Json::Array(vec![object(vec![("b", text("leaf"))])])
        )])
    );
}

#[test]
fn empty_path_replaces_document() {
    let mut value = object(vec![("a", num(1))]);
    set_at_path(&mut value, &StatePath::root(), Json::Bool(true)).expect("set");
    assert_eq!(value, Json::Bool(true));
}

#[test]
fn array_is_padded_with_nulls() {
    let mut value = Json::Array(vec![num(7)]);
    set_at_path(&mut value, &StatePath::from_pointer("/3"), num(9)).expect("set");
    assert_eq!(
        value,
        Json::Array(vec![num(7), Json::Null, Json::Null, num(9)])
    );
}

#[test]
fn null_becomes_array_for_index_segment() {
    let mut value = Json::Null;
    set_at_path(&mut value, &StatePath::from_pointer("/2"), num(1)).expect("set");
    assert_eq!(value, Json::Array(vec![Json::Null, Json::Null, num(1)]));
}

#[test]
fn nested_null_becomes_container() {
    let mut value = object(vec![("a", Json::Null)]);
    set_at_path(&mut value, &StatePath::from_pointer("/a/b"), num(1)).expect("set");
    assert_eq!(value, object(vec![("a", object(vec![("b", num(1))]))]));
}

#[test]
fn object_field_is_overwritten_in_place() {
    let mut value = object(vec![("a", num(1)), ("b", num(2))]);
    set_at_path(&mut value, &StatePath::from_pointer("/a"), num(3)).expect("set");
    assert_eq!(value, object(vec![("a", num(3)), ("b", num(2))]));
}

#[test]
fn object_field_is_added() {
    let mut value = object(vec![("a", num(1))]);
    set_at_path(&mut value, &StatePath::from_pointer("/b/c"), num(2)).expect("set");
    assert_eq!(
        value,
        object(vec![("a", num(1)), ("b", object(vec![("c", num(2))]))])
    );
}

#[test]
fn array_item_is_replaced() {
    let mut value = object(vec![("a", Json::Array(vec![num(1), num(2), num(3)]))]);
    set_at_path(&mut value, &StatePath::from_pointer("/a/1"), num(42)).expect("set");
    assert_eq!(
        value,
        object(vec![("a", Json::Array(vec![num(1), num(42), num(3)]))])
    );
}

#[test]
fn scalar_cannot_be_entered() {
    let mut value = object(vec![("a", num(5))]);
    let err = set_at_path(&mut value, &StatePath::from_pointer("/a/b"), num(1)).unwrap_err();
    assert_eq!(err.code, ErrorCode::InvalidInput);
    assert_eq!(
        err.message,
        "segment `b` cannot be applied to non-container value"
    );
    assert_eq!(value, object(vec![("a", num(5))]));
}

#[test]
fn array_rejects_field_name() {
    let mut value = object(vec![("a", Json::Array(vec![num(1)]))]);
    let err = set_at_path(&mut value, &StatePath::from_pointer("/a/x/y"), num(1)).unwrap_err();
    assert_eq!(err.code, ErrorCode::InvalidInput);
    assert_eq!(err.message, "array index expected for segment `x`");
    assert_eq!(value, object(vec![("a", Json::Array(vec![num(1)]))]));
}

#[test]
fn unreachable_index_is_rejected_and_changes_nothing() {
    let huge = usize::MAX.to_string();
    let mut path = StatePath::root();
    path.push("b");
    path.push(&huge);
    let mut value = object(vec![("a", num(1))]);
    let err = set_at_path(&mut value, &path, num(2)).unwrap_err();
    assert_eq!(err.code, ErrorCode::InvalidInput);
    assert_eq!(value, object(vec![("a", num(1))]));

    let mut empty = Json::Null;
    let err = set_at_path(&mut empty, &path, num(2)).unwrap_err();
    assert_eq!(err.code, ErrorCode::InvalidInput);
    assert_eq!(empty, Json::Null);
}

#[test]
fn get_walks_objects_and_arrays() {
    let value = object(vec![(
        "a",
        Json::Array(vec![num(1), object(vec![("b", text("x"))])]),
    )]);
    assert_eq!(
        get_at_path(&value, &StatePath::from_pointer("/a/1/b")),
        Some(&text("x"))
    );
    assert_eq!(
        get_at_path(&value, &StatePath::from_pointer("/a/0")),
        Some(&num(1))
    );
}

#[test]
fn get_misses_give_none() {
    let value = object(vec![("a", Json::Array(vec![num(1)])), ("s", text("x"))]);
    assert_eq!(get_at_path(&value, &StatePath::from_pointer("/b")), None);
    assert_eq!(get_at_path(&value, &StatePath::from_pointer("/a/1")), None);
    assert_eq!(get_at_path(&value, &StatePath::from_pointer("/a/x")), None);
    assert_eq!(get_at_path(&value, &StatePath::from_pointer("/a/-1")), None);
    assert_eq!(get_at_path(&value, &StatePath::from_pointer("/s/0")), None);
    assert_eq!(get_at_path(&Json::Null, &StatePath::from_pointer("/a")), None);
}

#[test]
fn get_takes_first_member_of_a_name() {
    let value = object(vec![("a", num(1)), ("a", num(2))]);
    assert_eq!(
        get_at_path(&value, &StatePath::from_pointer("/a")),
        Some(&num(1))
    );
}

#[test]
fn parse_index_reads_decimal_numbers() {
    assert_eq!(parse_index("0"), Some(0));
    assert_eq!(parse_index("12"), Some(12));
    assert_eq!(parse_index("007"), Some(7));
    assert_eq!(parse_index("+5"), Some(5));
    assert_eq!(parse_index(&usize::MAX.to_string()), Some(usize::MAX));
}

#[test]
fn parse_index_rejects_everything_else() {
    assert_eq!(parse_index(""), None);
    assert_eq!(parse_index("+"), None);
    assert_eq!(parse_index("-"), None);
    assert_eq!(parse_index("-1"), None);
    assert_eq!(parse_index("++1"), None);
    assert_eq!(parse_index("1a"), None);
    assert_eq!(parse_index(" 1"), None);
    assert_eq!(parse_index("1 "), None);
    assert_eq!(parse_index("1.0"), None);
    assert_eq!(parse_index("a"), None);
    assert_eq!(parse_index("\u{0661}"), None);
    assert_eq!(parse_index("340282366920938463463374607431768211456"), None);
}

#[test]
fn parse_index_agrees_with_std() {
    let max_plus_one = format!("{}0", usize::MAX);
    let samples = vec![
        "0", "1", "42", "+0", "+42", "-0", "", "+", "0x10", "1_000", "٣", "99999999999999999999",
        "18446744073709551615", "18446744073709551616", "4294967295", "4294967296",
        max_plus_one.as_str(),
    ];
    for sample in samples {
        assert_eq!(parse_index(sample), sample.parse::<usize>().ok(), "{sample}");
    }
}

#[test]
fn clone_copies_the_whole_document() {
    let value = object(vec![
        ("a", Json::Array(vec![num(1), Json::Null, Json::Bool(false)])),
        ("s", text("x")),
        ("o", object(vec![("n", num(-3))])),
    ]);
    assert_eq!(value.clone(), value);
}

fn names_once(doc: &Json) -> bool {
    match doc {
        Json::Array(items) => items.iter().all(names_once),
        Json::Object(members) => {
            let mut seen: Vec<&str> = Vec::new();
            for (name, value) in members {
                if seen.contains(&name.as_str()) || !names_once(value) {
                    return false;
                }
                seen.push(name.as_str());
            }
            true
        }
        _ => true,
    }
}

#[test]
fn writes_keep_each_name_once() {
    let mut doc = Json::Null;
    for (pointer, value) in [
        ("/a/b", num(1)),
        ("/a/c/0", num(2)),
        ("/a/b", num(3)),
        ("/a/c/2/d", text("x")),
        ("/e", object(vec![("f", num(4))])),
        ("/e/f", num(5)),
        ("/a/c/2/d", Json::Null),
        ("/a/c/2/d/g", num(6)),
    ] {
        set_at_path(&mut doc, &StatePath::from_pointer(pointer), value).expect("set");
        assert!(names_once(&doc), "{pointer}");
    }
    assert_eq!(
        doc,
        object(vec![
            (
                "a",
                object(vec![
                    ("b", num(3)),
                    (
                        "c",
                        Json::Array(vec![
                            num(2),
                            Json::Null,
                            object(vec![("d", object(vec![("g", num(6))]))]),
                        ])
                    ),
                ])
            ),
            ("e", object(vec![("f", num(5))])),
        ])
    );
    assert!(names_once(&doc.clone()));
    assert!(!names_once(&object(vec![("a", num(1)), ("a", num(2))])));
}
