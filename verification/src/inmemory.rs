//! The volatile backend: an in-process map from fully-qualified name to
//! document and deadline.
//!
//! The store is used through `&mut self`: one caller at a time. Each
//! operation takes the entry out of the map, decides, and puts back what
//! stays, so that no reference into the map is ever held.

use crate::error::{ErrorCode, StateError, StateResult};
use crate::json::Json;
use crate::key::{
    fqn, fqn_prefix, fqn_prefix_text, fqn_text, texts, FqnKey, StateKey, StatePath, TenantCtx,
};
use crate::store::{
    after_del, after_del_prefix, after_get, after_set, count_under, deadline_fits, deadline_for,
    existed, expired, get_value, merged, names_under, path_model, set_succeeds, updated_deadline,
    valid_instant, value_model, Entries, EntryModel, StateStore, NANOS_PER_SECOND,
};
use crate::util::{get_at_path, set_at_path};
use dashmap::DashMap;
use vstd::prelude::*;

verus! {

/// `dashmap::DashMap`, the map that holds the entries.
#[verifier::external_type_specification]
#[verifier::external_body]
#[verifier::reject_recursive_types(K)]
#[verifier::reject_recursive_types(V)]
#[verifier::reject_recursive_types(S)]
pub struct ExDashMap<K, V, S>(DashMap<K, V, S>);

/// A stored document and the instant at which it expires, if it does.
pub struct StoredValue {
    pub value: Json,
    pub expires_at: Option<i128>,
}

impl View for StoredValue {
    type V = EntryModel;

    open spec fn view(&self) -> EntryModel {
        EntryModel {
            document: self.value@,
            expires_at: match self.expires_at {
                Some(deadline) => Some(deadline as int),
                None => None,
            },
        }
    }
}

impl StoredValue {
    fn new(value: Json, expires_at: Option<i128>) -> (stored: StoredValue)
        ensures
            stored.value == value,
            stored.expires_at == expires_at,
    {
        StoredValue { value, expires_at }
    }

    fn is_expired(&self, now: i128) -> (gone: bool)
        ensures
            gone == expired(self@, now as int),
    {
        match self.expires_at {
            Some(deadline) => deadline <= now,
            None => false,
        }
    }
}

/// What a `DashMap` of stored values holds: the entry under each key.
pub uninterp spec fn held(entries: DashMap<String, StoredValue>) -> Map<Seq<char>, EntryModel>;

/// The store without entries.
pub open spec fn no_entries() -> Entries {
    Map::empty()
}

/// `DashMap::new`: a map that holds nothing.
#[verifier::external_body]
fn entries_new() -> (entries: DashMap<String, StoredValue>)
    ensures
        held(entries) == no_entries(),
{
    DashMap::new()
}

/// `DashMap::insert`: afterwards the key maps to the value; other keys are
/// untouched.
#[verifier::external_body]
fn entries_insert(entries: &mut DashMap<String, StoredValue>, key: String, stored: StoredValue)
    ensures
        held(*final(entries)) == held(*old(entries)).insert(key@, stored@),
{
    entries.insert(key, stored);
}

/// `DashMap::remove`: afterwards the key is gone; other keys are untouched.
/// Hands out the value that was under the key, if there was one.
#[verifier::external_body]
fn entries_remove(entries: &mut DashMap<String, StoredValue>, key: &str) -> (removed: Option<
    StoredValue,
>)
    ensures
        held(*final(entries)) == held(*old(entries)).remove(key@),
        removed is Some <==> held(*old(entries)).contains_key(key@),
        removed matches Some(stored) ==> stored@ == held(*old(entries))[key@],
{
    entries.remove(key).map(|pair| pair.1)
}

/// `DashMap::iter`, for the keys alone: each key of the map once, in no
/// particular order.
#[verifier::external_body]
fn entries_keys(entries: &DashMap<String, StoredValue>) -> (keys: Vec<String>)
    ensures
        texts(keys@).no_duplicates(),
        texts(keys@).to_set() == held(*entries).dom(),
{
    entries.iter().map(|entry| entry.key().clone()).collect()
}

/// `str::starts_with` for a string pattern: whether `text` begins with
/// `prefix`.
#[verifier::external_body]
fn starts_with(text: &str, prefix: &str) -> (matches: bool)
    ensures
        matches == prefix@.is_prefix_of(text@),
{
    text.starts_with(prefix)
}

/// The current time from `time::OffsetDateTime::now_utc`, as
/// `unix_timestamp_nanos` counts it: nanoseconds since the Unix epoch. The
/// count is made of a number of seconds that fits in 64 bits and the
/// nanoseconds within the second, which bounds it. Two calls may differ.
/// `now_utc` gives up only where the system clock reads a date outside the
/// calendar that `time` supports.
#[verifier::external_body]
fn now_utc_nanos() -> (now: i128)
    ensures
        valid_instant(now as int),
{
    time::OffsetDateTime::now_utc().unix_timestamp_nanos()
}

/// In-memory state store backed by a [`DashMap`].
pub struct InMemoryStateStore {
    entries: DashMap<String, StoredValue>,
}

impl View for InMemoryStateStore {
    type V = Entries;

    open spec fn view(&self) -> Entries {
        self.entries()
    }
}

impl Default for InMemoryStateStore {
    /// An empty store.
    fn default() -> (store: InMemoryStateStore)
        ensures
            store@ == no_entries(),
    {
        InMemoryStateStore::new()
    }
}

impl InMemoryStateStore {
    /// Creates a new empty store.
    pub fn new() -> (store: InMemoryStateStore)
        ensures
            store@ == no_entries(),
    {
        InMemoryStateStore { entries: entries_new() }
    }

    fn entry_key(&self, tenant: &TenantCtx, prefix: &str, key: &StateKey) -> (name: FqnKey)
        ensures
            name@ == fqn_text(*tenant, prefix@, key@),
    {
        fqn(tenant, prefix, key)
    }

    fn compute_deadline(now: i128, ttl_secs: Option<u32>) -> (deadline: Option<i128>)
        requires
            deadline_fits(now as int, ttl_secs),
        ensures
            match deadline {
                Some(at) => deadline_for(now as int, ttl_secs) == Some(at as int),
                None => deadline_for(now as int, ttl_secs) is None,
            },
    {
        match ttl_secs {
            Some(0) => None,
            Some(ttl) => Some(now + (ttl as i128) * NANOS_PER_SECOND),
            None => None,
        }
    }

    fn materialize_value(&mut self, now: i128, fqn: FqnKey, path: Option<&StatePath>) -> (found:
        StateResult<Option<Json>>)
        ensures
            found is Ok,
            value_model(found->Ok_0) == get_value(old(self)@, fqn@, now as int, path_model(path)),
            final(self)@ == after_get(old(self)@, fqn@, now as int),
    {
        let entry = match entries_remove(&mut self.entries, fqn.as_str()) {
            Some(entry) => entry,
            None => {
                return Ok(None);
            },
        };
        if entry.is_expired(now) {
            return Ok(None);
        }
        let value = if let Some(path) = path {
            match get_at_path(&entry.value, path) {
                Some(segment) => Some(segment.clone()),
                None => None,
            }
        } else {
            Some(entry.value.clone())
        };
        entries_insert(&mut self.entries, fqn.0, entry);
        Ok(value)
    }

    fn insert_new(
        &mut self,
        now: i128,
        fqn: FqnKey,
        path: Option<&StatePath>,
        value: &Json,
        ttl_secs: Option<u32>,
    ) -> (outcome: StateResult<()>)
        requires
            deadline_fits(now as int, ttl_secs),
        ensures
            match merged(None, path_model(path), value@) {
                Some(document) => outcome is Ok && final(self)@ == old(self)@.insert(
                    fqn@,
                    EntryModel { document, expires_at: deadline_for(now as int, ttl_secs) },
                ),
                None => {
                    &&& outcome is Err
                    &&& outcome->Err_0.code == ErrorCode::InvalidInput
                    &&& final(self)@ == old(self)@
                },
            },
    {
        let mut stored = if path.is_some() {
            Json::Null
        } else {
            value.clone()
        };
        if let Some(path) = path {
            match set_at_path(&mut stored, path, value.clone()) {
                Ok(()) => {},
                Err(err) => {
                    return Err(err);
                },
            }
        }
        let expires_at = Self::compute_deadline(now, ttl_secs);
        entries_insert(&mut self.entries, fqn.0, StoredValue::new(stored, expires_at));
        Ok(())
    }

    /// `get_json` as it goes when the clock reads `now`.
    pub fn get_json_at(
        &mut self,
        now: i128,
        tenant: &TenantCtx,
        prefix: &str,
        key: &StateKey,
        path: Option<&StatePath>,
    ) -> (found: StateResult<Option<Json>>)
        ensures
            found is Ok,
            value_model(found->Ok_0) == get_value(
                old(self)@,
                fqn_text(*tenant, prefix@, key@),
                now as int,
                path_model(path),
            ),
            final(self)@ == after_get(old(self)@, fqn_text(*tenant, prefix@, key@), now as int),
    {
        let fqn = self.entry_key(tenant, prefix, key);
        self.materialize_value(now, fqn, path)
    }

    /// `set_json` as it goes when the clock reads `now`. The deadline that
    /// the TTL asks for must be an instant that 128 bits can count.
    ///
    /// Fails with `InvalidInput` exactly where the path cannot be applied to
    /// the live document, or to null where there is none. A `set` that fails
    /// leaves a live entry as it was, document and deadline.
    pub fn set_json_at(
        &mut self,
        now: i128,
        tenant: &TenantCtx,
        prefix: &str,
        key: &StateKey,
        path: Option<&StatePath>,
        value: &Json,
        ttl_secs: Option<u32>,
    ) -> (outcome: StateResult<()>)
        requires
            deadline_fits(now as int, ttl_secs),
        ensures
            outcome is Ok <==> set_succeeds(
                old(self)@,
                fqn_text(*tenant, prefix@, key@),
                now as int,
                path_model(path),
                value@,
            ),
            outcome matches Err(err) ==> err.code == ErrorCode::InvalidInput,
            final(self)@ == after_set(
                old(self)@,
                fqn_text(*tenant, prefix@, key@),
                now as int,
                path_model(path),
                value@,
                ttl_secs,
            ),
    {
        let fqn = self.entry_key(tenant, prefix, key);
        match entries_remove(&mut self.entries, fqn.as_str()) {
            Some(mut entry) => {
                if entry.is_expired(now) {
                    return self.insert_new(now, fqn, path, value, ttl_secs);
                }
                let outcome = if let Some(path) = path {
                    set_at_path(&mut entry.value, path, value.clone())
                } else {
                    entry.value = value.clone();
                    Ok(())
                };
                if outcome.is_ok() {
                    if let Some(ttl) = ttl_secs {
                        entry.expires_at = Self::compute_deadline(now, Some(ttl));
                    }
                }
                entries_insert(&mut self.entries, fqn.0, entry);
                outcome
            },
            None => self.insert_new(now, fqn, path, value, ttl_secs),
        }
    }
}

impl StateStore for InMemoryStateStore {
    closed spec fn entries(&self) -> Entries {
        held(self.entries)
    }

    /// Reads the clock once and answers as `get_json_at` does for that
    /// instant. Never fails.
    fn get_json(
        &mut self,
        tenant: &TenantCtx,
        prefix: &str,
        key: &StateKey,
        path: Option<&StatePath>,
    ) -> (found: StateResult<Option<Json>>)
        ensures
            found is Ok,
            exists|now: int|
                {
                    &&& valid_instant(now)
                    &&& value_model(found->Ok_0) == get_value(
                        old(self)@,
                        fqn_text(*tenant, prefix@, key@),
                        now,
                        path_model(path),
                    )
                    &&& final(self)@ == #[trigger] after_get(
                        old(self)@,
                        fqn_text(*tenant, prefix@, key@),
                        now,
                    )
                },
    {
        let now = now_utc_nanos();
        self.get_json_at(now, tenant, prefix, key, path)
    }

    /// Reads the clock once and acts as `set_json_at` does for that instant.
    /// Fails only with `InvalidInput`.
    fn set_json(
        &mut self,
        tenant: &TenantCtx,
        prefix: &str,
        key: &StateKey,
        path: Option<&StatePath>,
        value: &Json,
        ttl_secs: Option<u32>,
    ) -> (outcome: StateResult<()>)
        ensures
            outcome matches Err(err) ==> err.code == ErrorCode::InvalidInput,
            exists|now: int|
                {
                    &&& valid_instant(now)
                    &&& outcome is Ok <==> set_succeeds(
                        old(self)@,
                        fqn_text(*tenant, prefix@, key@),
                        now,
                        path_model(path),
                        value@,
                    )
                    &&& final(self)@ == #[trigger] after_set(
                        old(self)@,
                        fqn_text(*tenant, prefix@, key@),
                        now,
                        path_model(path),
                        value@,
                        ttl_secs,
                    )
                },
    {
        let now = now_utc_nanos();
        self.set_json_at(now, tenant, prefix, key, path, value, ttl_secs)
    }

    /// Removes the entry, expired or not, and tells whether there was one.
    /// Never fails.
    fn del(&mut self, tenant: &TenantCtx, prefix: &str, key: &StateKey) -> (removed: StateResult<
        bool,
    >)
        ensures
            removed == Ok::<bool, StateError>(existed(old(self)@, fqn_text(*tenant, prefix@, key@))),
            final(self)@ == after_del(old(self)@, fqn_text(*tenant, prefix@, key@)),
    {
        let fqn = self.entry_key(tenant, prefix, key);
        Ok(entries_remove(&mut self.entries, fqn.as_str()).is_some())
    }

    /// Removes every entry whose name starts with
    /// `fqn_prefix(tenant, prefix)`, expired or not, and counts them. Never
    /// fails.
    fn del_prefix(&mut self, tenant: &TenantCtx, prefix: &str) -> (count: StateResult<u64>)
        ensures
            count is Ok,
            count->Ok_0 == count_under(old(self)@, fqn_prefix_text(*tenant, prefix@)),
            final(self)@ == after_del_prefix(old(self)@, fqn_prefix_text(*tenant, prefix@)),
    {
        let pattern = fqn_prefix(tenant, prefix);
        let keys = entries_keys(&self.entries);
        let ghost names = texts(keys@);
        let ghost mut gone: Set<Seq<char>> = Set::empty();
        let mut count: u64 = 0;
        let mut i: usize = 0;
        while i < keys.len()
            invariant
                0 <= i <= keys.len(),
                names == texts(keys@),
                names.no_duplicates(),
                names.to_set() == old(self)@.dom(),
                gone.finite(),
                gone.len() == count,
                count <= i,
                forall|name: Seq<char>| #[trigger]
                    gone.contains(name) <==> pattern@.is_prefix_of(name) && exists|k: int|
                        0 <= k < i && #[trigger] names[k] == name,
                self@ == old(self)@.remove_keys(gone),
            decreases keys.len() - i,
        {
            let key = &keys[i];
            assert(names[i as int] == key@);
            if starts_with(key.as_str(), pattern.as_str()) {
                assert(!gone.contains(key@));
                let removed = entries_remove(&mut self.entries, key.as_str());
                if removed.is_some() {
                    count += 1;
                }
                proof {
                    gone = gone.insert(key@);
                }
            }
            i += 1;
        }
        proof {
            let wanted = names_under(old(self)@, pattern@);
            assert forall|name: Seq<char>| gone.contains(name) == wanted.contains(name) by {}
            assert(gone =~= wanted);
        }
        Ok(count)
    }
}

} // verus!
