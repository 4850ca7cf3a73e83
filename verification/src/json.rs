//! Reading the JSON values that the store and the index hand over.
//!
//! JSON values are opaque here. What is read out of one is named by a
//! function of the value, and the functions of this module say over those
//! names what they return.

use crate::retriever::{Passage, PassageView};
use vstd::prelude::*;

verus! {

/// `serde_json::Value`, a JSON value of any kind. Nothing inside it is seen
/// here.
#[verifier::external_type_specification]
#[verifier::external_body]
pub struct ExJsonValue(serde_json::Value);

/// `serde_json::Map`, a JSON object. Nothing inside it is seen here.
#[verifier::external_type_specification]
#[verifier::external_body]
#[verifier::reject_recursive_types(K)]
#[verifier::reject_recursive_types(V)]
pub struct ExJsonObject<K, V>(serde_json::Map<K, V>);

/// The boolean that a JSON value is; `None` for a value of another kind.
pub uninterp spec fn json_bool(value: serde_json::Value) -> Option<bool>;

/// The text that a JSON value is; `None` for a value of another kind.
pub uninterp spec fn json_text(value: serde_json::Value) -> Option<Seq<char>>;

/// The value that a JSON object holds under a key; `None` where it holds none.
pub uninterp spec fn json_member(
    object: serde_json::Map<String, serde_json::Value>,
    key: Seq<char>,
) -> Option<serde_json::Value>;

/// `serde_json::Value::as_bool`: the boolean of a boolean value, `None` for
/// any other value. Trusted: the result is what `json_bool` names.
#[verifier::external_body]
fn value_as_bool(value: &serde_json::Value) -> (flag: Option<bool>)
    ensures
        flag == json_bool(*value),
{
    value.as_bool()
}

/// `serde_json::Value::as_str`: the text of a string value, `None` for any
/// other value. Trusted: the result is what `json_text` names.
#[verifier::external_body]
fn value_as_str<'a>(value: &'a serde_json::Value) -> (text: Option<&'a str>)
    ensures
        match text {
            Some(t) => json_text(*value) == Some(t@),
            None => json_text(*value) is None,
        },
{
    value.as_str()
}

/// `serde_json::Map::get`: the value stored under `key`, `None` where the
/// object has no such key. Trusted: the result is what `json_member` names.
#[verifier::external_body]
fn object_get<'a>(object: &'a serde_json::Map<String, serde_json::Value>, key: &str) -> (member:
    Option<&'a serde_json::Value>)
    ensures
        match member {
            Some(v) => json_member(*object, key@) == Some(*v),
            None => json_member(*object, key@) is None,
        },
{
    object.get(key)
}

/// The key under which a match of the search carries its text.
pub open spec fn text_key() -> Seq<char> {
    "text"@
}

/// The flag that the store holds: the boolean of a stored boolean, `None`
/// where nothing is stored or what is stored is no boolean.
pub open spec fn stored_flag_spec(stored: Option<&serde_json::Value>) -> Option<bool> {
    match stored {
        Some(value) => json_bool(*value),
        None => None,
    }
}

/// The text of a match: what its payload holds under the text key, if that
/// is a string. A match without a payload, without the key, or with
/// something else under it has no text.
pub open spec fn payload_text_spec(
    payload: Option<&serde_json::Map<String, serde_json::Value>>,
) -> Option<Seq<char>> {
    match payload {
        None => None,
        Some(object) => match json_member(*object, text_key()) {
            None => None,
            Some(value) => json_text(value),
        },
    }
}

/// Reads the restart flag out of what the store returned for a conversation.
pub fn stored_flag(stored: Option<&serde_json::Value>) -> (flag: Option<bool>)
    ensures
        flag == stored_flag_spec(stored),
        stored is None ==> flag is None,
{
    match stored {
        Some(value) => value_as_bool(value),
        None => None,
    }
}

/// Makes a passage of a match of the search: its score, and the text of its
/// payload where it has one.
pub fn passage_from_payload(
    score_bits: u32,
    payload: Option<&serde_json::Map<String, serde_json::Value>>,
) -> (passage: Passage)
    ensures
        passage@ == (PassageView { score_bits, text: payload_text_spec(payload) }),
        payload is None ==> passage.text is None,
{
    let text = match payload {
        None => None,
        Some(object) => match object_get(object, "text") {
            None => None,
            Some(value) => match value_as_str(value) {
                None => None,
                Some(t) => Some(t.to_owned()),
            },
        },
    };
    Passage { score_bits, text }
}

} // verus!
