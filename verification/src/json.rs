//! A JSON document, as the configuration files of a project hold it.

use vstd::prelude::*;
use crate::text::{owned, str_eq};

verus! {

/// A JSON value. Numbers keep their text, since nothing here computes with them.
pub enum Json {
    Null,
    Bool(bool),
    Number(String),
    Str(String),
    Array(Vec<Json>),
    Object(Vec<JsonMember>),
}

/// One member of a JSON object.
pub struct JsonMember {
    pub key: String,
    pub value: Json,
}

/// The value of the first member named `key`, if any.
pub open spec fn member_value(members: Seq<JsonMember>, key: Seq<char>) -> Option<Json>
    decreases members.len(),
{
    if members.len() == 0 {
        None
    } else if members[0].key@ == key {
        Some(members[0].value)
    } else {
        member_value(members.drop_first(), key)
    }
}

/// The member `key` of an object; `None` for a missing member and for a value that is
/// not an object. (`serde_json` indexing gives `Null` there, which reads the same.)
pub open spec fn json_get(j: Json, key: Seq<char>) -> Option<Json> {
    match j {
        Json::Object(members) => member_value(members@, key),
        _ => None,
    }
}

/// The text of a JSON string; `None` for any other value.
pub open spec fn json_str(j: Option<Json>) -> Option<Seq<char>> {
    match j {
        Some(Json::Str(s)) => Some(s@),
        _ => None,
    }
}

/// Whether `j` is an object with a member named `key`.
pub open spec fn has_key(j: Json, key: Seq<char>) -> bool {
    j is Object && json_get(j, key) is Some
}

/// The member `key` of an object (see [`json_get`]).
pub fn get<'a>(j: &'a Json, key: &str) -> (v: Option<&'a Json>)
    ensures
        match (v, json_get(*j, key@)) {
            (Some(a), Some(b)) => *a == b,
            (None, None) => true,
            _ => false,
        },
{
    match j {
        Json::Object(members) => {
            let mut i: usize = 0;
            assert(members@.skip(0) =~= members@);
            while i < members.len()
                invariant
                    json_get(*j, key@) == member_value(members@, key@),
                    i <= members@.len(),
                    member_value(members@, key@) == member_value(members@.skip(i as int), key@),
                decreases members@.len() - i,
            {
                assert(members@.skip(i as int).drop_first() =~= members@.skip(i + 1));
                if str_eq(members[i].key.as_str(), key) {
                    assert(members@.skip(i as int)[0] == members@[i as int]);
                    assert(members@[i as int].key@ == key@);
                    assert(member_value(members@.skip(i as int), key@) == Some(members@[i as int].value));
                    assert(json_get(*j, key@) == Some(members@[i as int].value));
                    return Some(&members[i].value);
                }
                i = i + 1;
            }
            None
        },
        _ => None,
    }
}

/// The text of a JSON string (see [`json_str`]).
pub fn as_str(v: Option<&Json>) -> (s: Option<String>)
    ensures
        match (s, json_str(match v {
            Some(j) => Some(*j),
            None => None,
        })) {
            (Some(a), Some(b)) => a@ == b,
            (None, None) => true,
            _ => false,
        },
{
    match v {
        Some(Json::Str(t)) => Some(owned(t.as_str())),
        _ => None,
    }
}

/// `serde_json::Value`, the document that `serde_json` parses text into.
#[verifier::external_type_specification]
#[verifier::external_body]
pub struct ExJsonValue(serde_json::Value);

/// The document that `serde_json` parses `text` into, as a [`Json`]; `None` when the text
/// is not JSON.
pub uninterp spec fn parsed_json(text: Seq<char>) -> Option<Json>;

/// The document in a file's text; `None` when the file could not be read or is not JSON.
pub open spec fn parsed_file(text: Option<&str>) -> Option<Json> {
    match text {
        Some(t) => parsed_json(t@),
        None => None,
    }
}

/// The document in a file's text held as a `String` (see [`parsed_file`]).
pub open spec fn parsed_string(text: Option<String>) -> Option<Json> {
    match text {
        Some(t) => parsed_json(t@),
        None => None,
    }
}

/// The library's view of a parsed document: each `serde_json` variant becomes the one of
/// the same name, a number keeps its text, an object its members in `serde_json`'s order.
#[verifier::external_body]
fn json_of(v: &serde_json::Value) -> Json {
    match v {
        serde_json::Value::Null => Json::Null,
        serde_json::Value::Bool(b) => Json::Bool(*b),
        serde_json::Value::Number(n) => Json::Number(n.to_string()),
        serde_json::Value::String(t) => Json::Str(t.clone()),
        serde_json::Value::Array(items) => Json::Array(items.iter().map(json_of).collect()),
        serde_json::Value::Object(members) => Json::Object(
            members.iter().map(|(k, v)| JsonMember { key: k.clone(), value: json_of(v) }).collect(),
        ),
    }
}

/// Calls `serde_json::from_str::<serde_json::Value>` and converts the document with
/// [`json_of`]. Claimed: the result depends on the text alone (it is `parsed_json` of it).
/// Not claimed: what the parse gives, which `serde_json`'s grammar decides.
#[verifier::external_body]
pub fn parse_json(text: &str) -> (res: Option<Json>)
    ensures
        res == parsed_json(text@),
{
    serde_json::from_str::<serde_json::Value>(text).ok().map(|v| json_of(&v))
}

/// Parses a file's text, if it could be read (see [`parsed_file`]).
pub fn parse_file(text: Option<&str>) -> (res: Option<Json>)
    ensures
        res == parsed_file(text),
{
    match text {
        Some(t) => parse_json(t),
        None => None,
    }
}

} // verus!
