//! A JSON-like structured value and the rewriting of its object keys.

use vstd::prelude::*;
use crate::casing::{camel_text, to_camel_case};
use crate::text::{last_index, same_text};

verus! {

/// A structured value. Numbers are either 64-bit integers or, where no such
/// integer represents them exactly, the bit pattern of a double.
#[derive(Debug, PartialEq, Eq)]
pub enum JsonValue {
    Null,
    Bool(bool),
    Int(i64),
    Float(u64),
    Str(String),
    Array(Vec<JsonValue>),
    Object(Vec<Member>),
}

/// One key of an object with its value.
#[derive(Debug, PartialEq, Eq)]
pub struct Member {
    pub key: String,
    pub value: JsonValue,
}

/// The mathematical content of a [`JsonValue`].
pub enum JsonModel {
    Null,
    Bool(bool),
    Int(i64),
    Float(u64),
    Str(Seq<char>),
    Array(Seq<JsonModel>),
    Object(Seq<(Seq<char>, JsonModel)>),
}

impl JsonValue {
    /// The content of this value.
    pub open spec fn model(self) -> JsonModel
        decreases self,
    {
        match self {
            JsonValue::Null => JsonModel::Null,
            JsonValue::Bool(b) => JsonModel::Bool(b),
            JsonValue::Int(i) => JsonModel::Int(i),
            JsonValue::Float(f) => JsonModel::Float(f),
            JsonValue::Str(s) => JsonModel::Str(s@),
            JsonValue::Array(items) => JsonModel::Array(
                Seq::new(
                    items@.len(),
                    |i: int|
                        if 0 <= i < items@.len() {
                            items@[i].model()
                        } else {
                            JsonModel::Null
                        },
                ),
            ),
            JsonValue::Object(members) => JsonModel::Object(
                Seq::new(
                    members@.len(),
                    |i: int|
                        if 0 <= i < members@.len() {
                            (members@[i].key@, members@[i].value.model())
                        } else {
                            (Seq::empty(), JsonModel::Null)
                        },
                ),
            ),
        }
    }
}

/// `m` with every object key, at every depth, rewritten in camel case.
/// Arrays are walked; scalars are left as they are.
pub open spec fn camel_keys(m: JsonModel) -> JsonModel
    decreases m,
{
    match m {
        JsonModel::Array(items) => JsonModel::Array(
            Seq::new(
                items.len(),
                |i: int|
                    if 0 <= i < items.len() {
                        camel_keys(items[i])
                    } else {
                        JsonModel::Null
                    },
            ),
        ),
        JsonModel::Object(members) => JsonModel::Object(
            Seq::new(
                members.len(),
                |i: int|
                    if 0 <= i < members.len() {
                        (camel_text(members[i].0), camel_keys(members[i].1))
                    } else {
                        (Seq::empty(), JsonModel::Null)
                    },
            ),
        ),
        _ => m,
    }
}

#[verifier::loop_isolation(false)]
pub(crate) fn camel_copy(value: &JsonValue) -> (out: JsonValue)
    ensures
        out.model() == camel_keys(value.model()),
    decreases value,
{
    broadcast use vstd::std_specs::vec::axiom_vec_index_decreases;
    match value {
        JsonValue::Null => JsonValue::Null,
        JsonValue::Bool(b) => JsonValue::Bool(*b),
        JsonValue::Int(i) => JsonValue::Int(*i),
        JsonValue::Float(f) => JsonValue::Float(*f),
        JsonValue::Str(s) => JsonValue::Str(s.clone()),
        JsonValue::Array(items) => {
            let mut out: Vec<JsonValue> = Vec::new();
            let mut i: usize = 0;
            while i < items.len()
                invariant
                    i <= items.len(),
                    out.len() == i,
                    forall|j: int|
                        0 <= j < i ==> (#[trigger] out@[j]).model() == camel_keys(
                            items@[j].model(),
                        ),
                decreases items.len() - i,
            {
                let converted = camel_copy(&items[i]);
                out.push(converted);
                i += 1;
            }
            let result = JsonValue::Array(out);
            assert(result.model()->Array_0 =~= camel_keys(value.model())->Array_0);
            result
        },
        JsonValue::Object(members) => {
            let mut out: Vec<Member> = Vec::new();
            let mut i: usize = 0;
            while i < members.len()
                invariant
                    i <= members.len(),
                    out.len() == i,
                    forall|j: int|
                        0 <= j < i ==> (#[trigger] out@[j]).key@ == camel_text(members@[j].key@)
                            && out@[j].value.model() == camel_keys(members@[j].value.model()),
                decreases members.len() - i,
            {
                let key = to_camel_case(members[i].key.as_str());
                let converted = camel_copy(&members[i].value);
                out.push(Member { key, value: converted });
                i += 1;
            }
            let result = JsonValue::Object(out);
            assert(result.model()->Object_0 =~= camel_keys(value.model())->Object_0);
            result
        },
    }
}

/// Rewrites every object key of `value`, at every depth, in camel case.
pub fn convert_json_keys_to_camel_case(value: JsonValue) -> (out: JsonValue)
    ensures
        out.model() == camel_keys(value.model()),
{
    camel_copy(&value)
}


/// The keys of the members of an object, in order.
pub open spec fn member_keys(members: Seq<Member>) -> Seq<Seq<char>> {
    Seq::new(members.len(), |i: int| members[i].key@)
}

/// The position of the last member with the key `key`: the one that counts
/// when a key stands more than once.
pub fn find_member(members: &Vec<Member>, key: &str) -> (found: Option<usize>)
    ensures
        match found {
            Some(m) => m < members.len() && m as int == last_index(member_keys(members@), key@),
            None => last_index(member_keys(members@), key@) == -1,
        },
{
    let ghost keys = member_keys(members@);
    let mut found: Option<usize> = None;
    let mut i: usize = 0;
    while i < members.len()
        invariant
            i <= members.len(),
            keys == member_keys(members@),
            match found {
                Some(m) => m < i && m as int == last_index(keys.take(i as int), key@),
                None => last_index(keys.take(i as int), key@) == -1,
            },
        decreases members.len() - i,
    {
        assert(keys.take(i + 1).drop_last() =~= keys.take(i as int));
        assert(keys.take(i + 1).last() == members@[i as int].key@);
        if same_text(members[i].key.as_str(), key) {
            found = Some(i);
        }
        i += 1;
    }
    assert(keys.take(members.len() as int) =~= keys);
    found
}

} // verus!

