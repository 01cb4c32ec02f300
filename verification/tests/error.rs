use greentic_state::{
    from_redis, from_serde, internal, invalid_input, unavailable, with_context, ErrorCode,
};

#[test]
fn constructors_set_code_and_message() {
    let err = invalid_input("bad path");
    assert_eq!(err.code, ErrorCode::InvalidInput);
    assert_eq!(err.message, "bad path");
    let err = internal("broken");
    assert_eq!(err.code, ErrorCode::Internal);
    assert_eq!(err.message, "broken");
    let err = unavailable("down");
    assert_eq!(err.code, ErrorCode::Unavailable);
    assert_eq!(err.message, "down");
}

#[test]
fn with_context_prefixes_the_message() {
    let err = with_context("timed out", "load document");
    assert_eq!(err.code, ErrorCode::Internal);
    assert_eq!(err.message, "load document: timed out");
}

#[test]
fn payload_that_is_not_json_is_invalid_input() {
    let failure = serde_json::from_str::<serde_json::Value>("{not json").unwrap_err();
    let text = failure.to_string();
    let err = from_serde(failure);
    assert_eq!(err.code, ErrorCode::InvalidInput);
    assert_eq!(err.message, text);
}

#[test]
fn failed_connection_is_unavailable() {
    let failure = redis::Client::open("not a redis url").unwrap_err();
    let text = failure.to_string();
    let err = from_redis(failure, "connect redis");
    assert_eq!(err.code, ErrorCode::Unavailable);
    assert_eq!(err.message, format!("connect redis: {text}"));
}
