//! The persistent backend's side of the store contract: everything it
//! decides between two commands to the remote service.
//!
//! Documents are stored as JSON text under their fully-qualified name, and
//! the service itself enforces expiry. A write goes through one server-side
//! script, [`UPSERT_LUA`], so that reading the remaining TTL and replacing
//! the payload cannot be torn apart. A path-scoped write first loads the
//! current document; that load and the write are two commands, and two
//! writers on one key can race between them. A prefix deletion that meets a
//! failing command ends there and reports what it had removed.

use crate::error::{from_serde, ErrorCode, StateError, StateResult};
use crate::json::Json;
use crate::key::{fqn_prefix, fqn_prefix_text, StatePath, TenantCtx};
use crate::store::{merged, path_model, projected, value_model};
use crate::util::{get_at_path, set_at_path};
use vstd::prelude::*;
use vstd::string::StringExecFns;

verus! {

/// The script that installs a payload. Its second argument is a TTL in
/// milliseconds: a positive TTL is installed with the payload, zero clears
/// any TTL, and a negative one keeps the TTL that the key has left, if any.
pub const UPSERT_LUA: &'static str = r#"
local key = KEYS[1]
local payload = ARGV[1]
local ttl_ms = tonumber(ARGV[2])

if ttl_ms ~= nil and ttl_ms > 0 then
  redis.call("SET", key, payload, "PX", ttl_ms)
  return ttl_ms
end

if ttl_ms == 0 then
  redis.call("SET", key, payload)
  redis.call("PERSIST", key)
  return ttl_ms
end

local current_ttl = redis.call("PTTL", key)
if current_ttl > 0 then
  redis.call("SET", key, payload, "PX", current_ttl)
else
  redis.call("SET", key, payload)
end
return current_ttl
"#;

/// How many keys one scan command asks for.
pub const SCAN_COUNT: u64 = 512;

/// The TTL argument of the upsert script for a TTL in seconds: the TTL in
/// milliseconds, zero for a TTL of zero, and `-1` for no TTL.
pub open spec fn ttl_argument(ttl_secs: Option<u32>) -> int {
    match ttl_secs {
        Some(ttl) => ttl * 1000,
        None => -1,
    }
}

/// Computes the TTL argument of the upsert script.
pub fn ttl_arg(ttl_secs: Option<u32>) -> (arg: i64)
    ensures
        arg == ttl_argument(ttl_secs),
{
    match ttl_secs {
        Some(0) => 0,
        Some(ttl) => (ttl as i64) * 1_000,
        None => -1,
    }
}

/// What a load makes of the payload it fetched, once the payload has been
/// read as JSON: no payload is no document, and a payload that is not JSON is
/// an `InvalidInput` error, never an absent document.
pub fn loaded_document(payload: Option<Result<Json, serde_json::Error>>) -> (document: StateResult<
    Option<Json>,
>)
    ensures
        match payload {
            Some(Ok(parsed)) => document == Ok::<Option<Json>, StateError>(Some(parsed)),
            Some(Err(_)) => document is Err && document->Err_0.code == ErrorCode::InvalidInput,
            None => document == Ok::<Option<Json>, StateError>(None),
        },
{
    match payload {
        Some(Ok(parsed)) => Ok(Some(parsed)),
        Some(Err(err)) => Err(from_serde(err)),
        None => Ok(None),
    }
}

/// What `get` returns once the document has been loaded: nothing for no
/// document, else the document or the value at `path` inside it.
pub fn project_document(document: Option<Json>, path: Option<&StatePath>) -> (found: Option<Json>)
    ensures
        value_model(found) == match document {
            Some(document) => projected(document@, path_model(path)),
            None => None,
        },
        document matches Some(loaded) && loaded.well_formed() ==> (found matches Some(part)
            ==> part.well_formed()),
{
    let document = match document {
        Some(document) => document,
        None => {
            return None;
        },
    };
    if let Some(path) = path {
        match get_at_path(&document, path) {
            Some(nested) => Some(nested.clone()),
            None => None,
        }
    } else {
        Some(document)
    }
}

/// Whether a `set` loads the stored document before it writes: only a write
/// at a path builds on what is there, a whole-document write sends no load.
pub fn loads_first(path: Option<&StatePath>) -> (load: bool)
    ensures
        load == path is Some,
{
    path.is_some()
}

/// The document that `set` writes: `value` itself without a path, else the
/// loaded document (null where there was none) with `value` written at
/// `path`. Fails with `InvalidInput` exactly where the path cannot be
/// applied.
pub fn merge_document(current: Option<Json>, path: Option<&StatePath>, value: &Json) -> (document:
    StateResult<Json>)
    ensures
        match merged(value_model(current), path_model(path), value@) {
            Some(written) => document is Ok && document->Ok_0@ == written,
            None => document is Err && document->Err_0.code == ErrorCode::InvalidInput,
        },
        (current matches Some(loaded) ==> loaded.well_formed()) && value.well_formed() ==> (
        document matches Ok(written) ==> written.well_formed()),
{
    if let Some(path) = path {
        let mut base = match current {
            Some(document) => document,
            None => Json::Null,
        };
        match set_at_path(&mut base, path, value.clone()) {
            Ok(()) => Ok(base),
            Err(err) => Err(err),
        }
    } else {
        Ok(value.clone())
    }
}

/// Whether a delete command that reports `removed` keys removed anything.
pub fn del_outcome(removed: i64) -> (existed: bool)
    ensures
        existed == (removed > 0),
{
    removed > 0
}

/// The glob pattern that a prefix scan matches keys against: the name
/// prefix of `(tenant, prefix)` followed by a wildcard.
pub fn scan_pattern(tenant: &TenantCtx, prefix: &str) -> (pattern: String)
    ensures
        pattern@ == fqn_prefix_text(*tenant, prefix@) + "*"@,
{
    let mut pattern = fqn_prefix(tenant, prefix);
    pattern.append("*");
    pattern
}

/// A prefix deletion that is about to scan from `cursor`, having removed
/// `deleted` keys so far.
#[derive(Clone, Copy, Debug, PartialEq, Eq, Structural)]
pub struct Scanning {
    pub cursor: u64,
    pub deleted: u64,
}

/// A prefix deletion that is deleting the batch of its last scan; `next` is
/// the cursor that scan returned.
#[derive(Clone, Copy, Debug, PartialEq, Eq, Structural)]
pub struct Deleting {
    pub next: u64,
    pub deleted: u64,
}

/// What a prefix deletion does once a batch is dealt with.
#[derive(Clone, Copy, Debug, PartialEq, Eq, Structural)]
pub enum ScanNext {
    /// Scan again.
    Scan(Scanning),
    /// The cursor came back as zero, or a command failed: report the count,
    /// which is the best that could be done.
    Finish { deleted: u64 },
}

/// What a prefix deletion does with the reply to a scan.
#[derive(Debug)]
pub enum ScanReply {
    /// Delete the keys that were found.
    Delete { keys: Vec<String>, state: Deleting },
    /// Nothing was found.
    Proceed(ScanNext),
}

/// Where a deletion that has removed `deleted` keys goes after a scan that
/// returned the cursor `next`.
pub open spec fn next_step(next: u64, deleted: u64) -> ScanNext {
    if next == 0 {
        ScanNext::Finish { deleted }
    } else {
        ScanNext::Scan(Scanning { cursor: next, deleted })
    }
}

fn proceed(next: u64, deleted: u64) -> (step: ScanNext)
    ensures
        step == next_step(next, deleted),
{
    if next == 0 {
        ScanNext::Finish { deleted }
    } else {
        ScanNext::Scan(Scanning { cursor: next, deleted })
    }
}

impl Scanning {
    /// A prefix deletion starts at cursor zero with nothing removed.
    pub fn start() -> (state: Scanning)
        ensures
            state == (Scanning { cursor: 0, deleted: 0 }),
    {
        Scanning { cursor: 0, deleted: 0 }
    }

    /// Takes the failure of the scan from `self.cursor`: the deletion ends,
    /// and reports the keys removed so far.
    pub fn failed(self) -> (step: ScanNext)
        ensures
            step == (ScanNext::Finish { deleted: self.deleted }),
    {
        ScanNext::Finish { deleted: self.deleted }
    }

    /// Takes the reply to the scan from `self.cursor`: the next cursor and
    /// the keys found. A batch that is not empty is deleted at once; an
    /// empty one moves the scan on.
    pub fn scanned(self, next: u64, keys: Vec<String>) -> (reply: ScanReply)
        ensures
            reply == (if keys.len() > 0 {
                ScanReply::Delete { keys, state: Deleting { next, deleted: self.deleted } }
            } else {
                ScanReply::Proceed(next_step(next, self.deleted))
            }),
    {
        if keys.len() > 0 {
            ScanReply::Delete { keys, state: Deleting { next, deleted: self.deleted } }
        } else {
            ScanReply::Proceed(proceed(next, self.deleted))
        }
    }
}

impl Deleting {
    /// Takes the failure of the deletion of a batch: the deletion ends, and
    /// reports the keys that earlier batches removed.
    pub fn failed(self) -> (step: ScanNext)
        ensures
            step == (ScanNext::Finish { deleted: self.deleted }),
    {
        ScanNext::Finish { deleted: self.deleted }
    }

    /// Takes the reply to the deletion of a batch: the number of keys that
    /// were removed, which may be less than the batch held.
    pub fn deleted(self, removed: i64) -> (step: ScanNext)
        requires
            0 <= removed,
            self.deleted + removed <= u64::MAX,
        ensures
            step == next_step(self.next, (self.deleted + removed) as u64),
    {
        proceed(self.next, self.deleted + removed as u64)
    }
}

} // verus!
