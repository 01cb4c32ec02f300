//! The path navigator: reading and writing a value nested inside a document.

use crate::error::{invalid_input, ErrorCode, StateError};
use crate::json::{
    distinct_names, items_model, lemma_member_position, lemma_members_lookup, lemma_members_model_congruent,
    lemma_members_push, lemma_members_update, member_position, members_model, well_formed, Json, JsonModel,
};
use crate::key::StatePath;
use vstd::prelude::*;
use vstd::string::{StrSliceExecFns, StringExecFns};

verus! {

/// Whether `c` is one of the decimal digits `0` to `9`.
pub open spec fn is_digit(c: char) -> bool {
    '0' as u32 <= c as u32 && c as u32 <= '9' as u32
}

/// The value of a decimal digit.
pub open spec fn digit_value(c: char) -> nat {
    (c as u32 - '0' as u32) as nat
}

/// The number written by a sequence of decimal digits, most significant first.
pub open spec fn decimal_value(digits: Seq<char>) -> nat
    decreases digits.len(),
{
    if digits.len() == 0 {
        0
    } else {
        decimal_value(digits.drop_last()) * 10 + digit_value(digits.last())
    }
}

/// Whether every character of `s` is a decimal digit.
pub open spec fn all_digits(s: Seq<char>) -> bool {
    forall|i: int| 0 <= i < s.len() ==> is_digit(#[trigger] s[i])
}

/// The digits of a segment: the segment itself, without one leading `+`.
pub open spec fn index_digits(segment: Seq<char>) -> Seq<char> {
    if segment.len() > 0 && segment[0] == '+' {
        segment.skip(1)
    } else {
        segment
    }
}

/// The array index that a segment denotes: an unsigned base-10 number that
/// fits in `usize`, written with at least one digit and at most one leading
/// `+`. Any other segment denotes no index.
pub open spec fn index_of(segment: Seq<char>) -> Option<usize> {
    let digits = index_digits(segment);
    if digits.len() > 0 && all_digits(digits) && decimal_value(digits) <= usize::MAX {
        Some(decimal_value(digits) as usize)
    } else {
        None
    }
}

/// A number is at least the number written by any prefix of its digits.
proof fn lemma_decimal_value_prefix(digits: Seq<char>, k: int)
    requires
        0 <= k <= digits.len(),
    ensures
        decimal_value(digits.take(k)) <= decimal_value(digits),
    decreases digits.len(),
{
    if k == digits.len() {
        assert(digits.take(k) =~= digits);
    } else {
        assert(digits.drop_last().take(k) =~= digits.take(k));
        lemma_decimal_value_prefix(digits.drop_last(), k);
    }
}

/// Reads a segment as an array index.
pub fn parse_index(segment: &str) -> (index: Option<usize>)
    ensures
        index == index_of(segment@),
{
    let n = segment.unicode_len();
    let start: usize = if n > 0 && segment.get_char(0) == '+' {
        1
    } else {
        0
    };
    let ghost digits = index_digits(segment@);
    if start == n {
        return None;
    }
    let mut value: usize = 0;
    let mut i: usize = start;
    while i < n
        invariant
            start <= i <= n,
            n == segment@.len(),
            digits == segment@.subrange(start as int, n as int),
            digits == index_digits(segment@),
            all_digits(digits.take(i - start)),
            value == decimal_value(digits.take(i - start)),
        decreases n - i,
    {
        let c = segment.get_char(i);
        let ghost seen = digits.take(i - start + 1);
        proof {
            assert(seen.drop_last() =~= digits.take(i - start));
            lemma_decimal_value_prefix(digits, i - start + 1);
        }
        if !('0' <= c && c <= '9') {
            return None;
        }
        let digit: usize = (c as u32 - '0' as u32) as usize;
        let shifted = match value.checked_mul(10) {
            Some(shifted) => shifted,
            None => {
                return None;
            },
        };
        value = match shifted.checked_add(digit) {
            Some(sum) => sum,
            None => {
                return None;
            },
        };
        i += 1;
        assert(all_digits(digits.take(i - start))) by {
            assert forall|k: int| 0 <= k < seen.len() implies is_digit(#[trigger] seen[k]) by {}
        }
    }
    assert(digits.take(n - start) =~= digits);
    Some(value)
}

/// The value found in `doc` at `path`. The empty path finds the document
/// itself. An object is entered by field name, an array by index; a missing
/// field, a segment that is no index, an index past the end, and any scalar
/// or null met with segments left find nothing.
pub open spec fn read_at(doc: JsonModel, path: Seq<Seq<char>>) -> Option<JsonModel>
    decreases path.len(),
{
    if path.len() == 0 {
        Some(doc)
    } else {
        let segment = path[0];
        match doc {
            JsonModel::Object(fields) => if fields.contains_key(segment) {
                read_at(fields[segment], path.skip(1))
            } else {
                None
            },
            JsonModel::Array(items) => match index_of(segment) {
                Some(index) => if index < items.len() {
                    read_at(items[index as int], path.skip(1))
                } else {
                    None
                },
                None => None,
            },
            _ => None,
        }
    }
}

/// The empty container that a segment calls for: an array for a segment that
/// denotes an index, an object for any other.
pub open spec fn container_for(segment: Seq<char>) -> JsonModel {
    if index_of(segment) is Some {
        JsonModel::Array(Seq::empty())
    } else {
        JsonModel::Object(Map::empty())
    }
}

/// `items`, grown with nulls to at least `len` items.
pub open spec fn padded(items: Seq<JsonModel>, len: nat) -> Seq<JsonModel> {
    if items.len() >= len {
        items
    } else {
        items + Seq::new((len - items.len()) as nat, |i: int| JsonModel::Null)
    }
}

/// The document that results from writing `value` into `doc` at `path`, or
/// `None` where the path cannot be applied.
///
/// The empty path replaces the document. Otherwise a null node first becomes
/// the container that the segment calls for. An object gets the field written,
/// starting from null where the field is missing. An array needs a segment
/// that denotes an index below `usize::MAX`; it is padded with nulls up to and
/// including that index, and the item there is written. A string, number or
/// boolean with segments left cannot be entered.
pub open spec fn write_at(doc: JsonModel, path: Seq<Seq<char>>, value: JsonModel) -> Option<
    JsonModel,
>
    decreases path.len(),
{
    if path.len() == 0 {
        Some(value)
    } else {
        let segment = path[0];
        let node = if doc is Null {
            container_for(segment)
        } else {
            doc
        };
        match node {
            JsonModel::Object(fields) => {
                let child = if fields.contains_key(segment) {
                    fields[segment]
                } else {
                    JsonModel::Null
                };
                match write_at(child, path.skip(1), value) {
                    Some(written) => Some(JsonModel::Object(fields.insert(segment, written))),
                    None => None,
                }
            },
            JsonModel::Array(items) => match index_of(segment) {
                Some(index) => if index < usize::MAX {
                    let grown = padded(items, (index + 1) as nat);
                    match write_at(grown[index as int], path.skip(1), value) {
                        Some(written) => Some(JsonModel::Array(grown.update(index as int, written))),
                        None => None,
                    }
                } else {
                    None
                },
                None => None,
            },
            _ => None,
        }
    }
}

/// What was written at a path is what is read back from it.
pub proof fn lemma_write_then_read(doc: JsonModel, path: Seq<Seq<char>>, value: JsonModel)
    requires
        write_at(doc, path, value) is Some,
    ensures
        read_at(write_at(doc, path, value)->Some_0, path) == Some(value),
    decreases path.len(),
{
    if path.len() > 0 {
        let segment = path[0];
        let node = if doc is Null {
            container_for(segment)
        } else {
            doc
        };
        match node {
            JsonModel::Object(fields) => {
                let child = if fields.contains_key(segment) {
                    fields[segment]
                } else {
                    JsonModel::Null
                };
                lemma_write_then_read(child, path.skip(1), value);
            },
            JsonModel::Array(items) => {
                let index = index_of(segment)->Some_0;
                let grown = padded(items, (index + 1) as nat);
                lemma_write_then_read(grown[index as int], path.skip(1), value);
            },
            _ => {},
        }
    }
}

/// A write into an object leaves its other fields as they are.
pub proof fn lemma_write_keeps_other_fields(
    fields: Map<Seq<char>, JsonModel>,
    path: Seq<Seq<char>>,
    value: JsonModel,
    name: Seq<char>,
)
    requires
        path.len() > 0,
        name != path[0],
        write_at(JsonModel::Object(fields), path, value) is Some,
    ensures
        write_at(JsonModel::Object(fields), path, value)->Some_0 matches JsonModel::Object(written)
            && written.contains_key(name) == fields.contains_key(name) && (fields.contains_key(
            name,
        ) ==> written[name] == fields[name]),
{
}

/// A write into an array leaves its other items as they are, and makes the
/// array no shorter.
pub proof fn lemma_write_keeps_other_items(
    items: Seq<JsonModel>,
    path: Seq<Seq<char>>,
    value: JsonModel,
    position: int,
)
    requires
        path.len() > 0,
        0 <= position < items.len(),
        index_of(path[0]) matches Some(index) ==> index != position,
        write_at(JsonModel::Array(items), path, value) is Some,
    ensures
        write_at(JsonModel::Array(items), path, value)->Some_0 matches JsonModel::Array(written)
            && written.len() >= items.len() && written[position] == items[position],
{
}

/// An array cannot be entered by name: a write whose first segment denotes no
/// index fails on every document whose root is an array.
pub proof fn lemma_array_rejects_names(doc: JsonModel, path: Seq<Seq<char>>, value: JsonModel)
    requires
        doc is Array,
        path.len() > 0,
        index_of(path[0]) is None,
    ensures
        write_at(doc, path, value) is None,
        read_at(doc, path) is None,
{
}

/// A string, a number or a boolean cannot be entered at all.
pub proof fn lemma_scalar_rejects_segments(doc: JsonModel, path: Seq<Seq<char>>, value: JsonModel)
    requires
        doc is Bool || doc is Number || doc is String,
        path.len() > 0,
    ensures
        write_at(doc, path, value) is None,
        read_at(doc, path) is None,
{
}

/// Whether some segment of `path` denotes the index `usize::MAX`, which no
/// array can reach.
pub open spec fn has_unreachable_index(path: Seq<Seq<char>>) -> bool {
    exists|i: int| 0 <= i < path.len() && index_of(#[trigger] path[i]) == Some(usize::MAX)
}

/// Writing into a document that does not exist yet fails only on an index
/// that no array can reach.
pub proof fn lemma_write_from_null(path: Seq<Seq<char>>, value: JsonModel)
    ensures
        write_at(JsonModel::Null, path, value) is Some <==> !has_unreachable_index(path),
    decreases path.len(),
{
    if path.len() > 0 {
        let rest = path.skip(1);
        lemma_write_from_null(rest, value);
        if has_unreachable_index(path) {
            let i = choose|i: int|
                0 <= i < path.len() && index_of(#[trigger] path[i]) == Some(usize::MAX);
            if i > 0 {
                assert(rest[i - 1] == path[i]);
            }
        }
    }
}

/// Finds the first member named `name`.
fn find_member(members: &Vec<(String, Json)>, name: &String) -> (position: Option<usize>)
    ensures
        match position {
            Some(i) => i < members.len() && member_position(members@, name@) == Some(i as int),
            None => member_position(members@, name@) is None,
        },
{
    let mut i: usize = 0;
    assert(members@.skip(0) =~= members@);
    while i < members.len()
        invariant
            0 <= i <= members.len(),
            member_position(members@, name@) == match member_position(
                members@.skip(i as int),
                name@,
            ) {
                Some(k) => Some(k + i),
                None => None,
            },
        decreases members.len() - i,
    {
        assert(members@.skip(i as int).skip(1) =~= members@.skip(i + 1));
        if members[i].0 == *name {
            return Some(i);
        }
        i += 1;
    }
    None
}

/// Retrieves the value nested in `value` at `path`.
pub fn get_at_path<'a>(value: &'a Json, path: &StatePath) -> (found: Option<&'a Json>)
    ensures
        match found {
            Some(nested) => read_at(value@, path@) == Some(nested@),
            None => read_at(value@, path@) is None,
        },
        value.well_formed() ==> (found matches Some(nested) ==> nested.well_formed()),
{
    let mut current = value;
    let mut i: usize = 0;
    assert(path@.skip(0) =~= path@);
    while i < path.segments.len()
        invariant
            0 <= i <= path.segments.len(),
            read_at(value@, path@) == read_at(current@, path@.skip(i as int)),
            value.well_formed() ==> current.well_formed(),
        decreases path.segments.len() - i,
    {
        let segment = &path.segments[i];
        assert(path@.skip(i as int).skip(1) =~= path@.skip(i + 1));
        match current {
            Json::Object(members) => {
                proof {
                    lemma_members_lookup(members@, segment@);
                }
                match find_member(members, segment) {
                    Some(position) => {
                        current = &members[position].1;
                    },
                    None => {
                        return None;
                    },
                }
            },
            Json::Array(items) => {
                match parse_index(segment.as_str()) {
                    Some(index) => {
                        if index < items.len() {
                            current = &items[index];
                        } else {
                            return None;
                        }
                    },
                    None => {
                        return None;
                    },
                }
            },
            _ => {
                return None;
            },
        }
        i += 1;
    }
    Some(current)
}

/// Grows `items` with nulls until `index` is a position in it.
fn ensure_len(items: &mut Vec<Json>, index: usize)
    requires
        index < usize::MAX,
    ensures
        items_model(final(items)@) == padded(items_model(old(items)@), (index + 1) as nat),
        final(items).len() > index,
        final(items).len() >= old(items).len(),
        forall|k: int| 0 <= k < old(items).len() ==> #[trigger] final(items)@[k] == old(items)@[k],
        forall|k: int|
            old(items).len() <= k < final(items).len() ==> #[trigger] final(items)@[k]
                == Json::Null,
{
    while items.len() <= index
        invariant
            index < usize::MAX,
            items.len() >= old(items).len(),
            items.len() <= index + 1 || items.len() == old(items).len(),
            forall|k: int| 0 <= k < old(items).len() ==> #[trigger] items@[k] == old(items)@[k],
            forall|k: int| old(items).len() <= k < items.len() ==> #[trigger] items@[k] == Json::Null,
        decreases index + 1 - items.len(),
    {
        items.push(Json::Null);
    }
    let ghost target = padded(items_model(old(items)@), (index + 1) as nat);
    assert forall|k: int| 0 <= k < target.len() implies items_model(items@)[k] == target[k] by {}
}

/// What the error says of a segment that should have been an array index.
pub open spec fn index_expected_text(segment: Seq<char>) -> Seq<char> {
    "array index expected for segment `"@ + segment + "`"@
}

/// What the error says of a segment that meets a string, a number or a
/// boolean.
pub open spec fn not_a_container_text(segment: Seq<char>) -> Seq<char> {
    "segment `"@ + segment + "` cannot be applied to non-container value"@
}

/// The error for a segment that should have been an array index: an
/// `InvalidInput` error that names the segment.
fn index_expected(segment: &str) -> (err: StateError)
    ensures
        err.code == ErrorCode::InvalidInput,
        err.message@ == index_expected_text(segment@),
{
    let mut message = String::from_str("array index expected for segment `");
    message.append(segment);
    message.append("`");
    invalid_input(message.as_str())
}

/// The error for a segment that meets a string, a number or a boolean: an
/// `InvalidInput` error that names the segment.
fn not_a_container(segment: &str) -> (err: StateError)
    ensures
        err.code == ErrorCode::InvalidInput,
        err.message@ == not_a_container_text(segment@),
{
    let mut message = String::from_str("segment `");
    message.append(segment);
    message.append("` cannot be applied to non-container value");
    invalid_input(message.as_str())
}

/// An array of documents that name each member once still is one when an
/// item that does so takes the place of one of them.
proof fn lemma_filled_is_well_formed(items: Seq<Json>, index: int, item: Json)
    requires
        0 <= index < items.len(),
        forall|k: int| 0 <= k < items.len() && k != index ==> well_formed(#[trigger] items[k]),
        well_formed(item),
    ensures
        forall|k: int| 0 <= k < items.len() ==> well_formed(#[trigger] items.update(index, item)[k]),
{
}

/// Members that name each name once, with values that do so too, still do
/// when one of them gets another value that does.
proof fn lemma_replaced_is_well_formed(
    members: Seq<(String, Json)>,
    index: int,
    member: (String, Json),
)
    requires
        0 <= index < members.len(),
        distinct_names(members),
        forall|k: int|
            0 <= k < members.len() && k != index ==> well_formed((#[trigger] members[k]).1),
        member.0@ == members[index].0@,
        well_formed(member.1),
    ensures
        distinct_names(members.update(index, member)),
        forall|k: int|
            0 <= k < members.len() ==> well_formed(
                (#[trigger] members.update(index, member)[k]).1,
            ),
{
    let updated = members.update(index, member);
    assert forall|i: int, j: int| 0 <= i < j < updated.len() implies (#[trigger] updated[i]).0@
        != (#[trigger] updated[j]).0@ by {}
}

/// Members that name each name once, with values that do so too, still do
/// when a member with a new name and such a value is added.
proof fn lemma_added_is_well_formed(members: Seq<(String, Json)>, member: (String, Json))
    requires
        distinct_names(members),
        forall|k: int| 0 <= k < members.len() ==> well_formed((#[trigger] members[k]).1),
        forall|k: int| 0 <= k < members.len() ==> (#[trigger] members[k]).0@ != member.0@,
        well_formed(member.1),
    ensures
        distinct_names(members.push(member)),
        forall|k: int|
            0 <= k <= members.len() ==> well_formed((#[trigger] members.push(member)[k]).1),
{
    let pushed = members.push(member);
    assert forall|i: int, j: int| 0 <= i < j < pushed.len() implies (#[trigger] pushed[i]).0@
        != (#[trigger] pushed[j]).0@ by {}
}

/// Builds the document that writing `new_value` at `path`, from segment
/// `start` on, makes out of nothing.
fn fresh_document(path: &StatePath, start: usize, new_value: Json) -> (built: Result<
    Json,
    StateError,
>)
    requires
        start <= path.segments.len(),
    ensures
        match write_at(JsonModel::Null, path@.skip(start as int), new_value@) {
            Some(doc) => built is Ok && built->Ok_0@ == doc,
            None => built is Err && built->Err_0.code == ErrorCode::InvalidInput,
        },
        new_value.well_formed() ==> (built matches Ok(doc) ==> doc.well_formed()),
    decreases path.segments.len() - start,
{
    let ghost sound = new_value.well_formed();
    if start == path.segments.len() {
        return Ok(new_value);
    }
    let segment = &path.segments[start];
    assert(path@.skip(start as int).skip(1) =~= path@.skip(start + 1));
    let child = match fresh_document(path, start + 1, new_value) {
        Ok(child) => child,
        Err(err) => {
            return Err(err);
        },
    };
    match parse_index(segment.as_str()) {
        Some(index) => {
            if index == usize::MAX {
                return Err(index_expected(segment.as_str()));
            }
            let mut items: Vec<Json> = Vec::new();
            ensure_len(&mut items, index);
            let ghost grown = items_model(items@);
            let ghost nulls = items@;
            items[index] = child;
            assert(items_model(items@) =~= grown.update(index as int, child@));
            proof {
                if sound {
                    lemma_filled_is_well_formed(nulls, index as int, child);
                }
            }
            Ok(Json::Array(items))
        },
        None => {
            let mut members: Vec<(String, Json)> = Vec::new();
            let ghost member = (*segment, child);
            proof {
                lemma_members_push(members@, member);
            }
            members.push((segment.clone(), child));
            proof {
                lemma_members_model_congruent(members@, Seq::empty().push(member));
                if sound {
                    lemma_added_is_well_formed(Seq::empty(), members@[0]);
                }
            }
            Ok(Json::Object(members))
        },
    }
}

/// Writes `new_value` into `target` along `path`, from segment `start` on.
fn set_from(target: &mut Json, path: &StatePath, start: usize, new_value: Json) -> (outcome: Result<
    (),
    StateError,
>)
    requires
        start <= path.segments.len(),
    ensures
        match write_at(old(target)@, path@.skip(start as int), new_value@) {
            Some(doc) => outcome is Ok && final(target)@ == doc,
            None => {
                &&& outcome is Err
                &&& outcome->Err_0.code == ErrorCode::InvalidInput
                &&& final(target)@ == old(target)@
            },
        },
        old(target).well_formed() && new_value.well_formed() ==> final(target).well_formed(),
    decreases path.segments.len() - start,
{
    let ghost sound = old(target).well_formed() && new_value.well_formed();
    if start == path.segments.len() {
        *target = new_value;
        return Ok(());
    }
    let segment = &path.segments[start];
    assert(path@.skip(start as int).skip(1) =~= path@.skip(start + 1));
    match target {
        Json::Null => match fresh_document(path, start, new_value) {
            Ok(doc) => {
                *target = doc;
                Ok(())
            },
            Err(err) => Err(err),
        },
        Json::Object(members) => {
            proof {
                lemma_members_lookup(members@, segment@);
            }
            match find_member(members, segment) {
                Some(position) => {
                    let ghost before = members@;
                    let outcome = set_from(&mut members[position].1, path, start + 1, new_value);
                    proof {
                        let member = members@[position as int];
                        lemma_member_position(before, segment@);
                        lemma_members_update(before, position as int, member);
                        if outcome is Err {
                            assert(members_model(members@) =~= members_model(before));
                        }
                        if sound {
                            lemma_replaced_is_well_formed(before, position as int, member);
                        }
                    }
                    outcome
                },
                None => match fresh_document(path, start + 1, new_value) {
                    Ok(child) => {
                        proof {
                            lemma_members_push(members@, (*segment, child));
                        }
                        let ghost before = members@;
                        members.push((segment.clone(), child));
                        proof {
                            lemma_members_model_congruent(
                                members@,
                                before.push((*segment, child)),
                            );
                            if sound {
                                lemma_member_position(before, segment@);
                                lemma_added_is_well_formed(before, members@[before.len() as int]);
                            }
                        }
                        Ok(())
                    },
                    Err(err) => Err(err),
                },
            }
        },
        Json::Array(items) => match parse_index(segment.as_str()) {
            Some(index) => {
                if index == usize::MAX {
                    return Err(index_expected(segment.as_str()));
                }
                if index < items.len() {
                    let ghost before = items@;
                    let outcome = set_from(&mut items[index], path, start + 1, new_value);
                    proof {
                        assert(items_model(items@) =~= items_model(before).update(
                            index as int,
                            items@[index as int]@,
                        ));
                        if outcome is Err {
                            assert(items_model(items@) =~= items_model(before));
                        }
                        if sound {
                            lemma_filled_is_well_formed(before, index as int, items@[index as int]);
                        }
                    }
                    outcome
                } else {
                    match fresh_document(path, start + 1, new_value) {
                        Ok(child) => {
                            ensure_len(items, index);
                            let ghost grown = items_model(items@);
                            let ghost padded_items = items@;
                            items[index] = child;
                            assert(items_model(items@) =~= grown.update(index as int, child@));
                            proof {
                                if sound {
                                    lemma_filled_is_well_formed(padded_items, index as int, child);
                                }
                            }
                            Ok(())
                        },
                        Err(err) => Err(err),
                    }
                }
            },
            None => Err(index_expected(segment.as_str())),
        },
        _ => Err(not_a_container(segment.as_str())),
    }
}

/// Upserts `new_value` into `target` at `path`.
///
/// The empty path replaces the document. On the way down, a null becomes the
/// container that the next segment calls for, a missing field is created, and
/// an array is padded with nulls up to the index. The write fails with
/// `InvalidInput`, and leaves `target` as it was, where a segment meets a
/// string, a number or a boolean, where a segment that meets an array denotes
/// no index, or where it denotes `usize::MAX`. A document whose objects name
/// each member once still does so after a write of such a value.
pub fn set_at_path(target: &mut Json, path: &StatePath, new_value: Json) -> (outcome: Result<
    (),
    StateError,
>)
    ensures
        match write_at(old(target)@, path@, new_value@) {
            Some(doc) => outcome is Ok && final(target)@ == doc,
            None => {
                &&& outcome is Err
                &&& outcome->Err_0.code == ErrorCode::InvalidInput
                &&& final(target)@ == old(target)@
            },
        },
        old(target).well_formed() && new_value.well_formed() ==> final(target).well_formed(),
{
    assert(path@.skip(0) =~= path@);
    set_from(target, path, 0, new_value)
}

} // verus!
