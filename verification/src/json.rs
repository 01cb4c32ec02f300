//! JSON documents and their mathematical model.
//!
//! A [`Json`] value is the executable representation of a document; its view,
//! a [`JsonModel`], is the tree that every contract of this crate speaks about.
//! Objects are kept as a list of members in insertion order; the model of an
//! object is the map from member name to the first member carrying that name.
//! A document is [`well_formed`] where no object names a member twice; the
//! operations of this crate keep it so.

use vstd::prelude::*;

verus! {

/// `serde_json::Number` stands for a JSON number; documents carry it without
/// looking inside.
#[verifier::external_type_specification]
#[verifier::external_body]
pub struct ExNumber(serde_json::Number);

/// A JSON document: null, a scalar, an array of documents, or an object whose
/// members are held in insertion order.
#[derive(Debug, PartialEq, Eq)]
pub enum Json {
    Null,
    Bool(bool),
    Number(serde_json::Number),
    String(String),
    Array(Vec<Json>),
    Object(Vec<(String, Json)>),
}

/// The mathematical value of a JSON document.
pub enum JsonModel {
    Null,
    Bool(bool),
    Number(serde_json::Number),
    String(Seq<char>),
    Array(Seq<JsonModel>),
    Object(Map<Seq<char>, JsonModel>),
}

/// The map denoted by a member list: each name maps to the value of the first
/// member with that name.
pub open spec fn members_model(members: Seq<(String, Json)>) -> Map<Seq<char>, JsonModel>
    decreases members, 0nat,
{
    if members.len() == 0 {
        Map::empty()
    } else {
        members_model(members.skip(1)).insert(members[0].0@, json_model(members[0].1))
    }
}

/// The sequence denoted by a list of documents.
pub open spec fn items_model(items: Seq<Json>) -> Seq<JsonModel>
    decreases items, 0nat,
{
    Seq::new(
        items.len(),
        |i: int|
            if 0 <= i < items.len() {
                json_model(items[i])
            } else {
                JsonModel::Null
            },
    )
}

/// The mathematical value of `doc`.
pub open spec fn json_model(doc: Json) -> JsonModel
    decreases doc, 1nat,
{
    match doc {
        Json::Null => JsonModel::Null,
        Json::Bool(b) => JsonModel::Bool(b),
        Json::Number(n) => JsonModel::Number(n),
        Json::String(s) => JsonModel::String(s@),
        Json::Array(items) => JsonModel::Array(items_model(items@)),
        Json::Object(members) => JsonModel::Object(members_model(members@)),
    }
}

/// Whether no two members carry the same name.
pub open spec fn distinct_names(members: Seq<(String, Json)>) -> bool {
    forall|i: int, j: int|
        0 <= i < j < members.len() ==> (#[trigger] members[i]).0@ != (#[trigger] members[j]).0@
}

/// Whether every object in `doc`, at any depth, names each of its members
/// once. Such a document is a JSON value: its objects are maps, with nothing
/// hidden behind an earlier member of the same name.
pub open spec fn well_formed(doc: Json) -> bool
    decreases doc,
{
    match doc {
        Json::Array(items) => forall|i: int|
            0 <= i < items@.len() ==> well_formed(#[trigger] items@[i]),
        Json::Object(members) => distinct_names(members@) && forall|i: int|
            0 <= i < members@.len() ==> well_formed((#[trigger] members@[i]).1),
        _ => true,
    }
}

impl Json {
    /// Whether every object in the document names each of its members once.
    pub open spec fn well_formed(&self) -> bool {
        well_formed(*self)
    }
}

impl View for Json {
    type V = JsonModel;

    open spec fn view(&self) -> JsonModel {
        json_model(*self)
    }
}

/// The position of the first member named `name`, if there is one.
pub open spec fn member_position(members: Seq<(String, Json)>, name: Seq<char>) -> Option<int>
    decreases members.len(),
{
    if members.len() == 0 {
        None
    } else if members[0].0@ == name {
        Some(0)
    } else {
        match member_position(members.skip(1), name) {
            Some(i) => Some(i + 1),
            None => None,
        }
    }
}

/// `member_position` finds the first member with the name, and nothing when no
/// member has it.
pub proof fn lemma_member_position(members: Seq<(String, Json)>, name: Seq<char>)
    ensures
        match member_position(members, name) {
            Some(i) => {
                &&& 0 <= i < members.len()
                &&& members[i].0@ == name
                &&& forall|j: int| 0 <= j < i ==> (#[trigger] members[j]).0@ != name
            },
            None => forall|j: int| 0 <= j < members.len() ==> (#[trigger] members[j]).0@ != name,
        },
    decreases members.len(),
{
    if members.len() > 0 && members[0].0@ != name {
        let rest = members.skip(1);
        lemma_member_position(rest, name);
        match member_position(rest, name) {
            Some(i) => {
                assert forall|j: int| 0 <= j < i + 1 implies (#[trigger] members[j]).0@ != name by {
                    if j > 0 {
                        assert(rest[j - 1] == members[j]);
                    }
                }
            },
            None => {
                assert forall|j: int| 0 <= j < members.len() implies (#[trigger] members[j]).0@
                    != name by {
                    if j > 0 {
                        assert(rest[j - 1] == members[j]);
                    }
                }
            },
        }
    }
}

/// The model of a member list holds exactly the names that occur in it, each
/// with the value of its first member.
pub proof fn lemma_members_lookup(members: Seq<(String, Json)>, name: Seq<char>)
    ensures
        members_model(members).contains_key(name) <==> member_position(members, name) is Some,
        member_position(members, name) matches Some(i) ==> members_model(members)[name]
            == json_model(members[i].1),
    decreases members.len(),
{
    if members.len() > 0 {
        let rest = members.skip(1);
        lemma_members_lookup(rest, name);
        lemma_member_position(rest, name);
    }
}

/// Replacing the value of the first member named `name` replaces the value
/// under that name in the model.
pub proof fn lemma_members_update(
    members: Seq<(String, Json)>,
    i: int,
    member: (String, Json),
)
    requires
        member_position(members, member.0@) == Some(i),
    ensures
        members_model(members.update(i, member)) == members_model(members).insert(
            member.0@,
            json_model(member.1),
        ),
    decreases members.len(),
{
    lemma_member_position(members, member.0@);
    let updated = members.update(i, member);
    if i == 0 {
        assert(updated.skip(1) =~= members.skip(1));
    } else {
        assert(updated.skip(1) =~= members.skip(1).update(i - 1, member));
        lemma_members_update(members.skip(1), i - 1, member);
    }
}

/// Appending a member whose name does not occur yet adds that name to the
/// model.
pub proof fn lemma_members_push(members: Seq<(String, Json)>, member: (String, Json))
    requires
        member_position(members, member.0@) is None,
    ensures
        members_model(members.push(member)) == members_model(members).insert(
            member.0@,
            json_model(member.1),
        ),
    decreases members.len(),
{
    let pushed = members.push(member);
    if members.len() == 0 {
        assert(pushed.skip(1) =~= members);
    } else {
        assert(pushed.skip(1) =~= members.skip(1).push(member));
        lemma_members_push(members.skip(1), member);
    }
}

/// Copies a number with `serde_json::Number::clone`. The copy is the number
/// that was copied.
#[verifier::external_body]
fn copy_number(number: &serde_json::Number) -> (copy: serde_json::Number)
    ensures
        copy == *number,
{
    number.clone()
}

impl Clone for Json {
    /// A deep copy: a document with the same value, and with each name once
    /// where this one has each name once.
    fn clone(&self) -> (copy: Json)
        ensures
            copy@ == self@,
            self.well_formed() ==> copy.well_formed(),
        decreases *self,
    {
        match self {
            Json::Null => Json::Null,
            Json::Bool(b) => Json::Bool(*b),
            Json::Number(n) => Json::Number(copy_number(n)),
            Json::String(s) => Json::String(s.clone()),
            Json::Array(items) => {
                let mut copies: Vec<Json> = Vec::new();
                let mut i: usize = 0;
                while i < items.len()
                    invariant
                        0 <= i <= items.len(),
                        copies.len() == i,
                        *self == Json::Array(*items),
                        forall|k: int| 0 <= k < i ==> (#[trigger] copies[k])@ == items[k]@,
                        self.well_formed() ==> forall|k: int|
                            0 <= k < i ==> well_formed(#[trigger] copies@[k]),
                    decreases items.len() - i,
                {
                    assert(decreases_to!(*self => self->Array_0));
                    let item = items[i].clone();
                    copies.push(item);
                    i += 1;
                }
                assert(items_model(copies@) =~= items_model(items@));
                Json::Array(copies)
            },
            Json::Object(members) => {
                let mut copies: Vec<(String, Json)> = Vec::new();
                let mut i: usize = 0;
                while i < members.len()
                    invariant
                        0 <= i <= members.len(),
                        copies.len() == i,
                        *self == Json::Object(*members),
                        forall|k: int|
                            0 <= k < i ==> (#[trigger] copies[k]).0@ == members[k].0@
                                && copies[k].1@ == members[k].1@,
                        self.well_formed() ==> forall|k: int|
                            0 <= k < i ==> well_formed((#[trigger] copies@[k]).1),
                    decreases members.len() - i,
                {
                    let name = members[i].0.clone();
                    assert(decreases_to!(*self => self->Object_0));
                    let value = members[i].1.clone();
                    copies.push((name, value));
                    i += 1;
                }
                proof {
                    lemma_members_model_congruent(copies@, members@);
                }
                Json::Object(copies)
            },
        }
    }
}

/// Member lists that agree name by name and value by value denote the same
/// map.
pub proof fn lemma_members_model_congruent(a: Seq<(String, Json)>, b: Seq<(String, Json)>)
    requires
        a.len() == b.len(),
        forall|k: int|
            0 <= k < a.len() ==> (#[trigger] a[k]).0@ == b[k].0@ && json_model(a[k].1)
                == json_model(b[k].1),
    ensures
        members_model(a) == members_model(b),
    decreases a.len(),
{
    if a.len() > 0 {
        assert forall|k: int| 0 <= k < a.skip(1).len() implies (#[trigger] a.skip(1)[k]).0@
            == b.skip(1)[k].0@ && json_model(a.skip(1)[k].1) == json_model(b.skip(1)[k].1) by {}
        lemma_members_model_congruent(a.skip(1), b.skip(1));
    }
}

} // verus!
