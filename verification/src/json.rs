//! The core's own model of a JSON document.
//!
//! The remote catalog speaks JSON. Decoding the raw bytes is serde_json's
//! work and stands behind trusted items; everything the launcher reads out
//! of a document afterwards is verified logic over [`JsonValue`].
use vstd::prelude::*;

use crate::text::str_eq;

verus! {

/// A decoded JSON document.
///
/// Object entries keep the order serde_json hands them out in (sorted by
/// key, each key unique). Numeric payloads are kept only as presence: no
/// reader of the catalog's documents consumes a number.
#[derive(Debug)]
pub enum JsonValue {
    Null,
    Bool(bool),
    Num,
    Str(String),
    Arr(Vec<JsonValue>),
    Obj(Vec<(String, JsonValue)>),
}

/// The first entry of `entries` whose key reads `key`, if any.
pub open spec fn spec_obj_lookup(entries: Seq<(String, JsonValue)>, key: Seq<char>) -> Option<
    JsonValue,
>
    decreases entries.len(),
{
    if entries.len() == 0 {
        None
    } else if entries[0].0@ == key {
        Some(entries[0].1)
    } else {
        spec_obj_lookup(entries.drop_first(), key)
    }
}

impl JsonValue {
    /// The value under `key`, if this is an object that has it.
    pub open spec fn spec_get(self, key: Seq<char>) -> Option<JsonValue> {
        match self {
            JsonValue::Obj(entries) => spec_obj_lookup(entries@, key),
            _ => None,
        }
    }

    pub open spec fn spec_str(self) -> Option<Seq<char>> {
        match self {
            JsonValue::Str(s) => Some(s@),
            _ => None,
        }
    }

    pub open spec fn spec_arr(self) -> Option<Seq<JsonValue>> {
        match self {
            JsonValue::Arr(items) => Some(items@),
            _ => None,
        }
    }

    pub open spec fn spec_entries(self) -> Option<Seq<(String, JsonValue)>> {
        match self {
            JsonValue::Obj(entries) => Some(entries@),
            _ => None,
        }
    }

    /// The string under `key`, if this is an object holding a string there.
    pub open spec fn spec_get_str(self, key: Seq<char>) -> Option<Seq<char>> {
        match self.spec_get(key) {
            Some(v) => v.spec_str(),
            None => None,
        }
    }

    /// Look a key up in an object. `None` both when this is no object and
    /// when the object has no such key.
    pub fn get<'a>(&'a self, key: &str) -> (r: Option<&'a JsonValue>)
        ensures
            match r {
                Some(v) => self.spec_get(key@) == Some(*v),
                None => self.spec_get(key@) is None,
            },
    {
        match self {
            JsonValue::Obj(entries) => obj_lookup(entries, key),
            _ => None,
        }
    }

    pub fn as_str(&self) -> (r: Option<&String>)
        ensures
            match r {
                Some(s) => self.spec_str() == Some(s@),
                None => self.spec_str() is None,
            },
    {
        match self {
            JsonValue::Str(s) => Some(s),
            _ => None,
        }
    }

    pub fn as_array(&self) -> (r: Option<&Vec<JsonValue>>)
        ensures
            match r {
                Some(items) => self.spec_arr() == Some(items@),
                None => self.spec_arr() is None,
            },
    {
        match self {
            JsonValue::Arr(items) => Some(items),
            _ => None,
        }
    }

    pub fn entries(&self) -> (r: Option<&Vec<(String, JsonValue)>>)
        ensures
            match r {
                Some(entries) => self.spec_entries() == Some(entries@),
                None => self.spec_entries() is None,
            },
    {
        match self {
            JsonValue::Obj(entries) => Some(entries),
            _ => None,
        }
    }

    /// The string under `key`, if there is one.
    pub fn get_str<'a>(&'a self, key: &str) -> (r: Option<&'a String>)
        ensures
            match r {
                Some(s) => self.spec_get_str(key@) == Some(s@),
                None => self.spec_get_str(key@) is None,
            },
    {
        match self.get(key) {
            Some(v) => v.as_str(),
            None => None,
        }
    }
}

proof fn lemma_obj_lookup_step(entries: Seq<(String, JsonValue)>, key: Seq<char>, i: int)
    requires
        0 <= i < entries.len(),
        entries[i].0@ != key,
    ensures
        spec_obj_lookup(entries.skip(i), key) == spec_obj_lookup(entries.skip(i + 1), key),
{
    assert(entries.skip(i).len() > 0);
    assert(entries.skip(i)[0] == entries[i]);
    assert(entries.skip(i).drop_first() =~= entries.skip(i + 1));
}

/// Look a key up in a borrowed entry list (an object's entries).
pub fn obj_lookup<'a>(entries: &'a Vec<(String, JsonValue)>, key: &str) -> (r: Option<&'a JsonValue>)
    ensures
        match r {
            Some(v) => spec_obj_lookup(entries@, key@) == Some(*v),
            None => spec_obj_lookup(entries@, key@) is None,
        },
{
    let n: usize = entries.len();
    assert(entries@.skip(0) =~= entries@);
    for i in 0..n
        invariant
            n == entries@.len(),
            spec_obj_lookup(entries@, key@) == spec_obj_lookup(entries@.skip(i as int), key@),
    {
        if str_eq(entries[i].0.as_str(), key) {
            assert(entries@.skip(i as int)[0] == entries@[i as int]);
            return Some(&entries[i].1);
        }
        proof {
            lemma_obj_lookup_step(entries@, key@, i as int);
        }
    }
    assert(entries@.skip(n as int) =~= Seq::<(String, JsonValue)>::empty());
    None
}

/// What serde_json decodes from a byte sequence, carried over into the
/// core's own document model; `None` where the bytes are not valid JSON.
pub uninterp spec fn json_doc(bytes: Seq<u8>) -> Option<JsonValue>;

/// The core's reading of a decoded serde_json value.
pub uninterp spec fn json_tree(value: serde_json::Value) -> JsonValue;

#[verifier::external_type_specification]
#[verifier::external_body]
pub struct ExValue(serde_json::Value);

/// Relies on `serde_json::from_slice::<serde_json::Value>`: decodes a JSON
/// document, `None` where the bytes are not one. The outcome is a function
/// of the bytes alone.
#[verifier::external_body]
fn decode_value(bytes: &[u8]) -> (r: Option<serde_json::Value>)
    ensures
        match r {
            Some(v) => json_doc(bytes@) == Some(json_tree(v)),
            None => json_doc(bytes@) is None,
        },
{
    serde_json::from_slice::<serde_json::Value>(bytes).ok()
}

/// Relies on serde_json's `Value` enum: each variant is carried over
/// one-for-one; object entries come out in `serde_json::Map` order (sorted
/// by key) with their keys unique; numeric payloads are not consumed
/// anywhere in the core and are kept as presence only.
#[verifier::external_body]
fn value_tree(value: &serde_json::Value) -> (r: JsonValue)
    ensures
        r == json_tree(*value),
{
    match value {
        serde_json::Value::Null => JsonValue::Null,
        serde_json::Value::Bool(b) => JsonValue::Bool(*b),
        serde_json::Value::Number(_) => JsonValue::Num,
        serde_json::Value::String(s) => JsonValue::Str(s.clone()),
        serde_json::Value::Array(items) => JsonValue::Arr(
            items.iter().map(|item| value_tree(item)).collect(),
        ),
        serde_json::Value::Object(fields) => JsonValue::Obj(
            fields.iter().map(|field| (field.0.clone(), value_tree(field.1))).collect(),
        ),
    }
}

/// Decode a JSON document into the core's model, or `None` where the bytes
/// are not valid JSON.
pub fn parse_document(bytes: &[u8]) -> (r: Option<JsonValue>)
    ensures
        r == json_doc(bytes@),
{
    match decode_value(bytes) {
        Some(value) => Some(value_tree(&value)),
        None => None,
    }
}

} // verus!
