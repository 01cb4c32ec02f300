//! The error taxonomy of the state store.

use vstd::prelude::*;
use vstd::string::StringExecFns;

verus! {

/// The kinds of failure a store operation can report.
#[derive(Clone, Copy, Debug, PartialEq, Eq, Hash, Structural)]
pub enum ErrorCode {
    /// A path that cannot be applied to the document, or a payload that is not
    /// JSON.
    InvalidInput,
    /// The backend reached a state it should never be in.
    Internal,
    /// The backend could not be reached, or a command failed in transport.
    Unavailable,
}

/// A failure: its kind and a message for people.
#[derive(Clone, Debug, PartialEq, Eq)]
pub struct StateError {
    pub code: ErrorCode,
    pub message: String,
}

/// The result of a store operation.
pub type StateResult<T> = Result<T, StateError>;

/// The text `context: detail`.
pub open spec fn context_text(context: Seq<char>, detail: Seq<char>) -> Seq<char> {
    context + ": "@ + detail
}

/// Builds an `InvalidInput` error with the given message.
pub fn invalid_input(message: &str) -> (err: StateError)
    ensures
        err.code == ErrorCode::InvalidInput,
        err.message@ == message@,
{
    StateError { code: ErrorCode::InvalidInput, message: String::from_str(message) }
}

/// Builds an `Internal` error for an unexpected backend failure.
pub fn internal(message: &str) -> (err: StateError)
    ensures
        err.code == ErrorCode::Internal,
        err.message@ == message@,
{
    StateError { code: ErrorCode::Internal, message: String::from_str(message) }
}

/// Builds an `Unavailable` error for a backend outage.
pub fn unavailable(message: &str) -> (err: StateError)
    ensures
        err.code == ErrorCode::Unavailable,
        err.message@ == message@,
{
    StateError { code: ErrorCode::Unavailable, message: String::from_str(message) }
}

/// Joins a context and a detail as `context: detail`.
fn with_detail(context: &str, detail: &str) -> (text: String)
    ensures
        text@ == context_text(context@, detail@),
{
    let mut text = String::from_str(context);
    text.append(": ");
    text.append(detail);
    text
}

/// Attaches a context to an error text; the result is an `Internal` error
/// whose message is `context: err`.
pub fn with_context(err: &str, context: &str) -> (wrapped: StateError)
    ensures
        wrapped.code == ErrorCode::Internal,
        wrapped.message@ == context_text(context@, err@),
{
    let message = with_detail(context, err);
    StateError { code: ErrorCode::Internal, message }
}

/// `serde_json::Error`: why a text is not JSON.
#[verifier::external_type_specification]
#[verifier::external_body]
pub struct ExSerdeError(serde_json::Error);

/// `redis::RedisError`: why a command or a connection failed.
#[verifier::external_type_specification]
#[verifier::external_body]
pub struct ExRedisError(redis::RedisError);

/// The text that `serde_json::Error` displays, through `to_string`. Nothing is
/// claimed of what it says.
#[verifier::external_body]
fn serde_error_text(err: &serde_json::Error) -> String {
    err.to_string()
}

/// The text that `redis::RedisError` displays, through `to_string`. Nothing is
/// claimed of what it says.
#[verifier::external_body]
fn redis_error_text(err: &redis::RedisError) -> String {
    err.to_string()
}

/// A payload that is not JSON is the caller's fault: `InvalidInput`.
pub fn from_serde(err: serde_json::Error) -> (wrapped: StateError)
    ensures
        wrapped.code == ErrorCode::InvalidInput,
{
    StateError { code: ErrorCode::InvalidInput, message: serde_error_text(&err) }
}

/// A failed command or connection means the backend is `Unavailable`; the
/// message starts with `context: `.
pub fn from_redis(err: redis::RedisError, context: &str) -> (wrapped: StateError)
    ensures
        wrapped.code == ErrorCode::Unavailable,
        exists|detail: Seq<char>| wrapped.message@ == context_text(context@, detail),
{
    let detail = redis_error_text(&err);
    let message = with_detail(context, detail.as_str());
    StateError { code: ErrorCode::Unavailable, message }
}

} // verus!
