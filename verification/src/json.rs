//! JSON documents as plain values.

use vstd::prelude::*;
use crate::text::str_eq;

verus! {

/// A JSON value.
#[derive(Debug)]
pub enum Json {
    Null,
    Bool(bool),
    /// A number; `Some` holds the value of a non-negative integer that fits 64 bits.
    Number(Option<u64>),
    Text(String),
    Array(Vec<Json>),
    Object(Vec<(String, Json)>),
}

/// `serde_json::Value`: a JSON document as serde_json holds it.
#[verifier::external_type_specification]
#[verifier::external_body]
pub struct ExValue(serde_json::Value);

/// What `serde_json::from_slice` makes of a text: the document, if the text is one.
pub uninterp spec fn json_document(text: Seq<u8>) -> Option<Json>;

/// The document that a `serde_json::Value` holds.
pub uninterp spec fn value_json(value: serde_json::Value) -> Json;

/// `serde_json::from_slice`, asked for a `serde_json::Value`: the value that the text
/// describes, or nothing where the text is no JSON document.
#[verifier::external_body]
fn value_from_slice(text: &[u8]) -> (r: Option<serde_json::Value>)
    ensures
        match r {
            Some(value) => json_document(text@) == Some(value_json(value)),
            None => json_document(text@) is None,
        },
{
    serde_json::from_slice::<serde_json::Value>(text).ok()
}

/// Takes a `serde_json::Value` apart, variant by variant, into a `Json`. A number is
/// read with `serde_json::Number::as_u64`; the entries of an object come in the
/// order in which serde_json's map hands them out.
#[verifier::external_body]
fn json_from_value(value: serde_json::Value) -> (r: Json)
    ensures
        r == value_json(value),
{
    match value {
        serde_json::Value::Null => Json::Null,
        serde_json::Value::Bool(b) => Json::Bool(b),
        serde_json::Value::Number(n) => Json::Number(n.as_u64()),
        serde_json::Value::String(s) => Json::Text(s),
        serde_json::Value::Array(a) => Json::Array(a.into_iter().map(json_from_value).collect()),
        serde_json::Value::Object(m) => Json::Object(
            m.into_iter().map(|(k, v)| (k, json_from_value(v))).collect(),
        ),
    }
}

/// The JSON string that serde_json writes for a text: the text between double
/// quotes, with what JSON does not take as it is escaped.
pub uninterp spec fn json_quoted(text: Seq<char>) -> Seq<char>;

/// `serde_json::to_string`, given a text: the JSON string for it. Writing a text
/// into memory cannot fail.
#[verifier::external_body]
pub(crate) fn quote(text: &str) -> (r: String)
    ensures
        r@ == json_quoted(text@),
{
    serde_json::to_string(text).unwrap_or_default()
}

/// The value of the first entry of `entries` whose key is `key`.
pub open spec fn lookup(entries: Seq<(String, Json)>, key: Seq<char>) -> Option<Json>
    decreases entries.len(),
{
    if entries.len() == 0 {
        None
    } else if entries[0].0@ == key {
        Some(entries[0].1)
    } else {
        lookup(entries.drop_first(), key)
    }
}

impl Json {
    /// Reads a JSON text.
    pub fn from_slice(text: &[u8]) -> (r: Option<Json>)
        ensures
            r == json_document(text@),
    {
        match value_from_slice(text) {
            Some(value) => Some(json_from_value(value)),
            None => None,
        }
    }

    /// The value under `key`, where this is an object that has the key.
    pub open spec fn field(self, key: Seq<char>) -> Option<Json> {
        match self {
            Json::Object(entries) => lookup(entries@, key),
            _ => None,
        }
    }

    /// The text under `key`, where there is a text.
    pub open spec fn text_at(self, key: Seq<char>) -> Option<Seq<char>> {
        match self.field(key) {
            Some(Json::Text(text)) => Some(text@),
            _ => None,
        }
    }

    /// The boolean under `key`, where there is one.
    pub open spec fn flag_at(self, key: Seq<char>) -> Option<bool> {
        match self.field(key) {
            Some(Json::Bool(flag)) => Some(flag),
            _ => None,
        }
    }

    /// The number under `key`, where there is a non-negative integer of 64 bits.
    pub open spec fn number_at(self, key: Seq<char>) -> Option<u64> {
        match self.field(key) {
            Some(Json::Number(Some(n))) => Some(n),
            _ => None,
        }
    }

    /// The text under `key`.
    pub fn text(&self, key: &str) -> (r: Option<&str>)
        ensures
            match r {
                Some(text) => self.text_at(key@) == Some(text@),
                None => self.text_at(key@) is None,
            },
    {
        match self.get(key) {
            Some(Json::Text(text)) => Some(text.as_str()),
            _ => None,
        }
    }

    /// The boolean under `key`.
    pub fn flag(&self, key: &str) -> (r: Option<bool>)
        ensures
            r == self.flag_at(key@),
    {
        match self.get(key) {
            Some(Json::Bool(flag)) => Some(*flag),
            _ => None,
        }
    }

    /// The non-negative integer under `key`.
    pub fn number(&self, key: &str) -> (r: Option<u64>)
        ensures
            r == self.number_at(key@),
    {
        match self.get(key) {
            Some(Json::Number(Some(n))) => Some(*n),
            _ => None,
        }
    }

    /// The value under `key`.
    pub fn get(&self, key: &str) -> (r: Option<&Json>)
        ensures
            match r {
                Some(value) => self.field(key@) == Some(*value),
                None => self.field(key@) is None,
            },
    {
        match self {
            Json::Object(entries) => {
                let mut i: usize = 0;
                assert(entries@.skip(0) =~= entries@);
                while i < entries.len()
                    invariant
                        i <= entries.len(),
                        self.field(key@) == lookup(entries@, key@),
                        lookup(entries@, key@) == lookup(entries@.skip(i as int), key@),
                    decreases entries.len() - i,
                {
                    assert(entries@.skip(i as int).drop_first() =~= entries@.skip(i + 1));
                    if str_eq(entries[i].0.as_str(), key) {
                        return Some(&entries[i].1);
                    }
                    i += 1;
                }
                None
            },
            _ => None,
        }
    }
}

} // verus!
