//! The store contract: the four operations every backend offers, and what
//! they mean on the mathematical model of a store.
//!
//! A store is a map from fully-qualified name to entry; an entry is a
//! document with an optional deadline. Time is counted in nanoseconds since
//! the Unix epoch. An entry whose deadline has come behaves as if it were
//! absent.

use crate::error::{ErrorCode, StateResult};
use crate::json::{Json, JsonModel};
use crate::key::{
    all_colon_free, colon_free, fqn_prefix_text, fqn_text, lemma_fqn_injective,
    lemma_prefix_match, prefix_segments, scope_segments, well_separated, StateKey, StatePath,
    TenantCtx,
};
use crate::util::{index_of, lemma_write_then_read, read_at, write_at};
use vstd::prelude::*;

verus! {

/// Nanoseconds in a second.
pub const NANOS_PER_SECOND: i128 = 1_000_000_000;

/// The earliest instant a clock can report.
pub const MIN_INSTANT: i128 = -9_223_372_036_854_775_808_000_000_000;

/// The latest instant a clock can report.
pub const MAX_INSTANT: i128 = 9_223_372_036_854_775_807_999_999_999;

/// Whether `now` is an instant a clock can report: a count of seconds that
/// fits in 64 bits, and the nanoseconds within that second.
pub open spec fn valid_instant(now: int) -> bool {
    MIN_INSTANT <= now <= MAX_INSTANT
}

/// What a store holds under one name.
pub struct EntryModel {
    pub document: JsonModel,
    pub expires_at: Option<int>,
}

/// The contents of a store.
pub type Entries = Map<Seq<char>, EntryModel>;

/// An entry has expired once its deadline is not in the future.
pub open spec fn expired(entry: EntryModel, now: int) -> bool {
    entry.expires_at matches Some(deadline) && deadline <= now
}

/// The entry under `name` that a caller can observe at `now`.
pub open spec fn live_entry(entries: Entries, name: Seq<char>, now: int) -> Option<EntryModel> {
    if entries.contains_key(name) && !expired(entries[name], now) {
        Some(entries[name])
    } else {
        None
    }
}

/// The deadline that a TTL given at `now` asks for: none for no TTL and for
/// a TTL of zero, else `now` plus that many seconds.
pub open spec fn deadline_for(now: int, ttl_secs: Option<u32>) -> Option<int> {
    match ttl_secs {
        Some(ttl) => if ttl == 0 {
            None
        } else {
            Some(now + ttl * NANOS_PER_SECOND)
        },
        None => None,
    }
}

/// Whether the deadline that a TTL given at `now` asks for can be counted in
/// 128 bits.
pub open spec fn deadline_fits(now: int, ttl_secs: Option<u32>) -> bool {
    match ttl_secs {
        Some(ttl) => now + ttl * NANOS_PER_SECOND <= i128::MAX,
        None => true,
    }
}

/// The deadline of an entry that was alive when a `set` with `ttl_secs`
/// reached it: a TTL replaces the deadline, no TTL leaves it as it was.
pub open spec fn updated_deadline(current: Option<int>, now: int, ttl_secs: Option<u32>) -> Option<
    int,
> {
    if ttl_secs is Some {
        deadline_for(now, ttl_secs)
    } else {
        current
    }
}

/// The part of a document that a `get` hands out: the whole document, or the
/// value at the path.
pub open spec fn projected(document: JsonModel, path: Option<Seq<Seq<char>>>) -> Option<JsonModel> {
    match path {
        Some(path) => read_at(document, path),
        None => Some(document),
    }
}

/// The document that a `set` stores: the value itself, or the current
/// document (null where there is none) with the value written at the path.
/// `None` where the path cannot be applied.
pub open spec fn merged(
    current: Option<JsonModel>,
    path: Option<Seq<Seq<char>>>,
    value: JsonModel,
) -> Option<JsonModel> {
    match path {
        Some(path) => write_at(
            match current {
                Some(document) => document,
                None => JsonModel::Null,
            },
            path,
            value,
        ),
        None => Some(value),
    }
}

/// What `get` returns at `now`.
pub open spec fn get_value(
    entries: Entries,
    name: Seq<char>,
    now: int,
    path: Option<Seq<Seq<char>>>,
) -> Option<JsonModel> {
    match live_entry(entries, name, now) {
        Some(entry) => projected(entry.document, path),
        None => None,
    }
}

/// The store after a `get` at `now`: an expired entry under the name is
/// purged.
pub open spec fn after_get(entries: Entries, name: Seq<char>, now: int) -> Entries {
    if entries.contains_key(name) && expired(entries[name], now) {
        entries.remove(name)
    } else {
        entries
    }
}

/// Whether a `set` at `now` succeeds: the path can be applied to the live
/// document, or to null where there is none.
pub open spec fn set_succeeds(
    entries: Entries,
    name: Seq<char>,
    now: int,
    path: Option<Seq<Seq<char>>>,
    value: JsonModel,
) -> bool {
    match live_entry(entries, name, now) {
        Some(entry) => merged(Some(entry.document), path, value) is Some,
        None => merged(None, path, value) is Some,
    }
}

/// The store after a `set` at `now`.
///
/// A live entry gets the merged document and the updated deadline; where the
/// path cannot be applied the entry stays as it is, document and deadline.
/// Without a live entry, a new one is stored with the deadline the TTL asks
/// for; where the path cannot be applied nothing is stored. An expired entry
/// that the `set` comes upon is purged, as on any access.
pub open spec fn after_set(
    entries: Entries,
    name: Seq<char>,
    now: int,
    path: Option<Seq<Seq<char>>>,
    value: JsonModel,
    ttl_secs: Option<u32>,
) -> Entries {
    match live_entry(entries, name, now) {
        Some(entry) => match merged(Some(entry.document), path, value) {
            Some(document) => entries.insert(
                name,
                EntryModel {
                    document,
                    expires_at: updated_deadline(entry.expires_at, now, ttl_secs),
                },
            ),
            None => entries,
        },
        None => match merged(None, path, value) {
            Some(document) => entries.insert(
                name,
                EntryModel { document, expires_at: deadline_for(now, ttl_secs) },
            ),
            None => entries.remove(name),
        },
    }
}

/// The names in a store that start with `prefix`.
pub open spec fn names_under(entries: Entries, prefix: Seq<char>) -> Set<Seq<char>> {
    entries.dom().filter(|name: Seq<char>| prefix.is_prefix_of(name))
}

/// Whether `del` finds an entry under `name`; an expired entry counts.
pub open spec fn existed(entries: Entries, name: Seq<char>) -> bool {
    entries.contains_key(name)
}

/// The store after `del`.
pub open spec fn after_del(entries: Entries, name: Seq<char>) -> Entries {
    entries.remove(name)
}

/// The number of entries that `del_prefix` removes; expired entries count.
pub open spec fn count_under(entries: Entries, prefix: Seq<char>) -> nat {
    names_under(entries, prefix).len()
}

/// The store after `del_prefix`.
pub open spec fn after_del_prefix(entries: Entries, prefix: Seq<char>) -> Entries {
    entries.remove_keys(names_under(entries, prefix))
}

/// The view of an optional path.
pub open spec fn path_model(path: Option<&StatePath>) -> Option<Seq<Seq<char>>> {
    match path {
        Some(path) => Some(path@),
        None => None,
    }
}

/// The view of an optional document.
pub open spec fn value_model(value: Option<Json>) -> Option<JsonModel> {
    match value {
        Some(value) => Some(value@),
        None => None,
    }
}

/// JSON state store operations shared across backends.
///
/// Every backend answers for the entries it holds, [`StateStore::entries`],
/// and reads a clock where expiry matters. Whenever an operation succeeds it
/// has done to the entries what the model says, for some instant that the
/// clock could report. A backend that cannot fail says so in its own
/// contract.
pub trait StateStore {
    /// The entries that the store holds.
    spec fn entries(&self) -> Entries;

    /// Gets the document stored for `(tenant, prefix, key)`, or the value at
    /// `path` inside it. Absent and expired entries give `None`, and so does
    /// a path that does not resolve.
    fn get_json(
        &mut self,
        tenant: &TenantCtx,
        prefix: &str,
        key: &StateKey,
        path: Option<&StatePath>,
    ) -> (found: StateResult<Option<Json>>)
        ensures
            found matches Ok(value) ==> exists|now: int|
                {
                    &&& valid_instant(now)
                    &&& value_model(value) == get_value(
                        old(self).entries(),
                        fqn_text(*tenant, prefix@, key@),
                        now,
                        path_model(path),
                    )
                    &&& final(self).entries() == #[trigger] after_get(
                        old(self).entries(),
                        fqn_text(*tenant, prefix@, key@),
                        now,
                    )
                },
    ;

    /// Stores `value` for `(tenant, prefix, key)`, or upserts it at `path`
    /// inside the stored document. A TTL of zero clears the deadline, a
    /// positive TTL sets it anew, and no TTL keeps the one there is. Fails
    /// with `InvalidInput` where the path cannot be applied, and then leaves
    /// a live entry as it was, document and deadline.
    fn set_json(
        &mut self,
        tenant: &TenantCtx,
        prefix: &str,
        key: &StateKey,
        path: Option<&StatePath>,
        value: &Json,
        ttl_secs: Option<u32>,
    ) -> (outcome: StateResult<()>)
        ensures
            outcome is Ok || outcome->Err_0.code == ErrorCode::InvalidInput ==> exists|now: int|
                {
                    &&& valid_instant(now)
                    &&& outcome is Ok <==> set_succeeds(
                        old(self).entries(),
                        fqn_text(*tenant, prefix@, key@),
                        now,
                        path_model(path),
                        value@,
                    )
                    &&& final(self).entries() == #[trigger] after_set(
                        old(self).entries(),
                        fqn_text(*tenant, prefix@, key@),
                        now,
                        path_model(path),
                        value@,
                        ttl_secs,
                    )
                },
    ;

    /// Deletes the entry of `(tenant, prefix, key)` and tells whether there
    /// was one.
    fn del(&mut self, tenant: &TenantCtx, prefix: &str, key: &StateKey) -> (removed: StateResult<
        bool,
    >)
        ensures
            removed matches Ok(was_there) ==> {
                &&& was_there == existed(old(self).entries(), fqn_text(*tenant, prefix@, key@))
                &&& final(self).entries() == after_del(
                    old(self).entries(),
                    fqn_text(*tenant, prefix@, key@),
                )
            },
    ;

    /// Deletes every entry under `(tenant, prefix)` and tells how many there
    /// were.
    fn del_prefix(&mut self, tenant: &TenantCtx, prefix: &str) -> (count: StateResult<u64>)
        ensures
            count matches Ok(removed) ==> {
                &&& removed == count_under(old(self).entries(), fqn_prefix_text(*tenant, prefix@))
                &&& final(self).entries() == after_del_prefix(
                    old(self).entries(),
                    fqn_prefix_text(*tenant, prefix@),
                )
            },
    ;
}

/// Round trip: a document stored whole, without a TTL, is the document that
/// a later `get` returns, as long as a deadline that the entry already had
/// has not come by then.
pub proof fn lemma_round_trip(
    entries: Entries,
    name: Seq<char>,
    now: int,
    value: JsonModel,
    later: int,
)
    requires
        live_entry(entries, name, now) matches Some(entry) ==> !expired(entry, later),
    ensures
        set_succeeds(entries, name, now, None, value),
        get_value(after_set(entries, name, now, None, value, None), name, later, None) == Some(
            value,
        ),
{
}

/// Path round trip: a value that `set` wrote at a path is the value that a
/// later `get` reads at that path, as long as the entry has not expired by
/// then.
pub proof fn lemma_path_round_trip(
    entries: Entries,
    name: Seq<char>,
    now: int,
    path: Seq<Seq<char>>,
    value: JsonModel,
    ttl_secs: Option<u32>,
    later: int,
)
    requires
        set_succeeds(entries, name, now, Some(path), value),
        !expired(after_set(entries, name, now, Some(path), value, ttl_secs)[name], later),
    ensures
        get_value(
            after_set(entries, name, now, Some(path), value, ttl_secs),
            name,
            later,
            Some(path),
        ) == Some(value),
{
    match live_entry(entries, name, now) {
        Some(entry) => lemma_write_then_read(entry.document, path, value),
        None => lemma_write_then_read(JsonModel::Null, path, value),
    }
}

/// Tenant isolation: among colon-free inputs, a `set` under one tenant does
/// not change what a tenant with another scope reads under the same prefix
/// and key; where that tenant has no entry there, it goes on reading nothing.
pub proof fn lemma_tenant_isolation(
    entries: Entries,
    a: TenantCtx,
    b: TenantCtx,
    prefix: Seq<char>,
    key: Seq<char>,
    now: int,
    path: Option<Seq<Seq<char>>>,
    value: JsonModel,
    ttl_secs: Option<u32>,
    later: int,
    read_path: Option<Seq<Seq<char>>>,
)
    requires
        well_separated(a, prefix, key),
        well_separated(b, prefix, key),
        scope_segments(a) != scope_segments(b),
    ensures
        get_value(
            after_set(entries, fqn_text(a, prefix, key), now, path, value, ttl_secs),
            fqn_text(b, prefix, key),
            later,
            read_path,
        ) == get_value(entries, fqn_text(b, prefix, key), later, read_path),
        !entries.contains_key(fqn_text(b, prefix, key)) ==> get_value(
            after_set(entries, fqn_text(a, prefix, key), now, path, value, ttl_secs),
            fqn_text(b, prefix, key),
            later,
            read_path,
        ) is None,
{
    lemma_fqn_injective(a, prefix, key, b, prefix, key);
}

/// Bulk deletion clears its prefix: after `del_prefix` for
/// `(tenant, prefix)`, no key under that prefix can be read.
pub proof fn lemma_del_prefix_clears(
    entries: Entries,
    tenant: TenantCtx,
    prefix: Seq<char>,
    key: Seq<char>,
    now: int,
    path: Option<Seq<Seq<char>>>,
)
    ensures
        get_value(
            after_del_prefix(entries, fqn_prefix_text(tenant, prefix)),
            fqn_text(tenant, prefix, key),
            now,
            path,
        ) is None,
{
}

/// Bulk deletion is scoped: among colon-free inputs, `del_prefix` for
/// `(a, prefix_a)` leaves the entry of `(b, prefix_b, key_b)` as it is,
/// unless the segments that lead to `(a, prefix_a)` are the first of those
/// that lead to `(b, prefix_b)`.
pub proof fn lemma_del_prefix_spares(
    entries: Entries,
    a: TenantCtx,
    prefix_a: Seq<char>,
    b: TenantCtx,
    prefix_b: Seq<char>,
    key_b: Seq<char>,
    now: int,
    path: Option<Seq<Seq<char>>>,
)
    requires
        all_colon_free(scope_segments(a)),
        colon_free(prefix_a),
        well_separated(b, prefix_b, key_b),
        !prefix_segments(a, prefix_a).is_prefix_of(prefix_segments(b, prefix_b)),
    ensures
        get_value(
            after_del_prefix(entries, fqn_prefix_text(a, prefix_a)),
            fqn_text(b, prefix_b, key_b),
            now,
            path,
        ) == get_value(entries, fqn_text(b, prefix_b, key_b), now, path),
{
    lemma_prefix_match(a, prefix_a, b, prefix_b, key_b);
}

/// Bulk deletion spares the other prefixes of the same tenant, whatever
/// their keys are called.
pub proof fn lemma_del_prefix_spares_other_prefix(
    entries: Entries,
    tenant: TenantCtx,
    prefix: Seq<char>,
    other_prefix: Seq<char>,
    key: Seq<char>,
    now: int,
    path: Option<Seq<Seq<char>>>,
)
    requires
        well_separated(tenant, other_prefix, key),
        colon_free(prefix),
        prefix != other_prefix,
    ensures
        get_value(
            after_del_prefix(entries, fqn_prefix_text(tenant, prefix)),
            fqn_text(tenant, other_prefix, key),
            now,
            path,
        ) == get_value(entries, fqn_text(tenant, other_prefix, key), now, path),
{
    let deleted = prefix_segments(tenant, prefix);
    let other = prefix_segments(tenant, other_prefix);
    if deleted.is_prefix_of(other) {
        assert(deleted.last() == other.subrange(0, deleted.len() as int).last());
    }
    lemma_del_prefix_spares(entries, tenant, prefix, tenant, other_prefix, key, now, path);
}

/// Bulk deletion spares a tenant with another scope of the same shape: the
/// same prefix and key under that tenant stay as they are.
pub proof fn lemma_del_prefix_spares_other_tenant(
    entries: Entries,
    a: TenantCtx,
    b: TenantCtx,
    prefix: Seq<char>,
    key: Seq<char>,
    now: int,
    path: Option<Seq<Seq<char>>>,
)
    requires
        all_colon_free(scope_segments(a)),
        well_separated(b, prefix, key),
        scope_segments(a).len() == scope_segments(b).len(),
        scope_segments(a) != scope_segments(b),
    ensures
        get_value(
            after_del_prefix(entries, fqn_prefix_text(a, prefix)),
            fqn_text(b, prefix, key),
            now,
            path,
        ) == get_value(entries, fqn_text(b, prefix, key), now, path),
{
    let deleted = prefix_segments(a, prefix);
    let other = prefix_segments(b, prefix);
    if deleted.is_prefix_of(other) {
        assert(deleted =~= other);
        assert(deleted.drop_last() =~= scope_segments(a));
        assert(other.drop_last() =~= scope_segments(b));
    }
    lemma_del_prefix_spares(entries, a, prefix, b, prefix, key, now, path);
}

/// A `set` that fails changes nothing of a live entry: neither its document
/// nor its deadline, whatever TTL came with it.
pub proof fn lemma_failed_set_changes_nothing(
    entries: Entries,
    name: Seq<char>,
    now: int,
    path: Option<Seq<Seq<char>>>,
    value: JsonModel,
    ttl_secs: Option<u32>,
)
    requires
        live_entry(entries, name, now) is Some,
        !set_succeeds(entries, name, now, path, value),
    ensures
        after_set(entries, name, now, path, value, ttl_secs) == entries,
{
}

/// Invalid path: a path whose first segment denotes no index cannot be
/// merged into a document whose root is an array, so a `set` with it on a
/// live entry with such a document fails and changes nothing.
pub proof fn lemma_invalid_path_rejected(
    entries: Entries,
    name: Seq<char>,
    now: int,
    path: Seq<Seq<char>>,
    value: JsonModel,
    ttl_secs: Option<u32>,
)
    requires
        live_entry(entries, name, now) matches Some(entry) && entry.document is Array,
        path.len() > 0,
        index_of(path[0]) is None,
    ensures
        merged(Some(entries[name].document), Some(path), value) is None,
        !set_succeeds(entries, name, now, Some(path), value),
        after_set(entries, name, now, Some(path), value, ttl_secs) == entries,
{
}

/// TTL expiry: after a `set` with a positive TTL has succeeded, a `get` at
/// or after the deadline returns nothing.
pub proof fn lemma_ttl_expires(
    entries: Entries,
    name: Seq<char>,
    now: int,
    path: Option<Seq<Seq<char>>>,
    value: JsonModel,
    ttl: u32,
    later: int,
    read_path: Option<Seq<Seq<char>>>,
)
    requires
        ttl > 0,
        set_succeeds(entries, name, now, path, value),
        later >= now + ttl * NANOS_PER_SECOND,
    ensures
        get_value(
            after_set(entries, name, now, path, value, Some(ttl)),
            name,
            later,
            read_path,
        ) is None,
{
}

/// Before its deadline, an entry stored with a TTL is there to be read.
pub proof fn lemma_ttl_keeps_until_deadline(
    entries: Entries,
    name: Seq<char>,
    now: int,
    value: JsonModel,
    ttl: u32,
    later: int,
)
    requires
        later < now + ttl * NANOS_PER_SECOND,
    ensures
        get_value(after_set(entries, name, now, None, value, Some(ttl)), name, later, None)
            == Some(value),
{
}

/// Delete idempotence: once deleted, an entry is not there to be deleted
/// again.
pub proof fn lemma_delete_idempotent(entries: Entries, name: Seq<char>)
    ensures
        !existed(after_del(entries, name), name),
        after_del(after_del(entries, name), name) == after_del(entries, name),
{
}

/// A deleted entry cannot be read.
pub proof fn lemma_deleted_is_gone(
    entries: Entries,
    name: Seq<char>,
    now: int,
    path: Option<Seq<Seq<char>>>,
)
    ensures
        get_value(after_del(entries, name), name, now, path) is None,
{
}

/// TTL is preserved on update: an entry stored with a positive TTL and
/// updated without one before its deadline keeps that deadline; the update
/// neither starts the TTL anew nor clears it.
pub proof fn lemma_ttl_preserved_on_update(
    entries: Entries,
    name: Seq<char>,
    now: int,
    path: Option<Seq<Seq<char>>>,
    value: JsonModel,
    ttl: u32,
    later: int,
    later_path: Option<Seq<Seq<char>>>,
    later_value: JsonModel,
)
    requires
        ttl > 0,
        set_succeeds(entries, name, now, path, value),
        later < now + ttl * NANOS_PER_SECOND,
    ensures
        after_set(
            after_set(entries, name, now, path, value, Some(ttl)),
            name,
            later,
            later_path,
            later_value,
            None,
        )[name].expires_at == Some(now + ttl * NANOS_PER_SECOND),
{
}

} // verus!
