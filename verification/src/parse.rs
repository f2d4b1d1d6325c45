//! Reading JSON text into a [`Json`] tree. The grammar is `serde_json`'s; this
//! module holds the calls into it and states what is taken on trust about them.

use crate::json::{Json, JsonView};
use vstd::prelude::*;

verus! {

/// `serde_json::Value`, carried as it is: nothing is known of what is inside
/// but through `value_content`.
#[verifier::external_type_specification]
#[verifier::external_body]
pub struct ExValue(serde_json::Value);

/// `serde_json::Error`, carried as it is and never looked into.
#[verifier::external_type_specification]
#[verifier::external_body]
pub struct ExError(serde_json::Error);

/// The value that `serde_json::from_slice` reads from `bytes` as a
/// `serde_json::Value`, or `None` where it rejects them. It depends on the
/// bytes alone.
pub uninterp spec fn json_document(bytes: Seq<u8>) -> Option<JsonView>;

/// What a `serde_json::Value` holds, member by member and element by element:
/// the tree that copying it variant by variant gives.
pub uninterp spec fn value_content(value: serde_json::Value) -> JsonView;

/// Calls `serde_json::from_slice` for a `serde_json::Value`. Trusted: it
/// succeeds exactly on the documents that `json_document` knows, and the value
/// it returns holds that document.
#[verifier::external_body]
fn parse_value(bytes: &[u8]) -> (parsed: Result<serde_json::Value, serde_json::Error>)
    ensures
        match parsed {
            Ok(value) => json_document(bytes@) == Some(value_content(value)),
            Err(_) => json_document(bytes@) is None,
        },
{
    serde_json::from_slice::<serde_json::Value>(bytes)
}

/// Copies a `serde_json::Value` into a [`Json`], variant by variant. Trusted:
/// the copy holds what the value holds. A number goes through
/// `Number::as_i128`, which gives the value of one that is kept as an integer
/// and `None` for every other; the members of an object come in the order in
/// which `Map::iter` hands them out, each key once.
#[verifier::external_body]
fn lift(value: &serde_json::Value) -> (json: Json)
    ensures
        json@ == value_content(*value),
{
    match value {
        serde_json::Value::Null => Json::Null,
        serde_json::Value::Bool(b) => Json::Bool(*b),
        serde_json::Value::Number(n) => Json::Number(n.as_i128()),
        serde_json::Value::String(s) => Json::Text(s.clone()),
        serde_json::Value::Array(items) => Json::Array(items.iter().map(lift).collect()),
        serde_json::Value::Object(members) => Json::Object(
            members.iter().map(|(key, member)| (key.clone(), lift(member))).collect(),
        ),
    }
}

/// Reads a JSON document from its bytes.
pub fn parse(bytes: &[u8]) -> (doc: Option<Json>)
    ensures
        match doc {
            Some(json) => json_document(bytes@) == Some(json@),
            None => json_document(bytes@) is None,
        },
{
    match parse_value(bytes) {
        Ok(value) => Some(lift(&value)),
        Err(_) => None,
    }
}

} // verus!
