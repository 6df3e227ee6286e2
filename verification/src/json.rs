//! JSON documents as plain data: what a value holds under a key, whether it is a
//! string, a number or an array, and the reading of a document from its text, which is
//! the work of `serde_json`.

use serde_json::Value;
use vstd::prelude::*;

verus! {

/// A JSON value as plain data.
#[derive(Debug)]
pub enum Json {
    /// The value `null`.
    Null,
    /// `true` or `false`.
    Bool(bool),
    /// A number: `Some` where it is a whole number that a `u64` holds, else `None`.
    Number(Option<u64>),
    /// A string.
    Text(String),
    /// An array with its items in their order.
    Array(Vec<Json>),
    /// An object: its members, each with its key.
    Object(Vec<(String, Json)>),
}

/// The first of `members` from index `from` on that has the key `key`.
pub open spec fn find_member(members: Seq<(String, Json)>, key: Seq<char>, from: int) -> Option<
    Json,
>
    decreases members.len() - from,
{
    if from < 0 || from >= members.len() {
        None
    } else if members[from].0@ == key {
        Some(members[from].1)
    } else {
        find_member(members, key, from + 1)
    }
}

/// The member of `value` under `key`: `None` where `value` is no object or has no
/// such member.
pub open spec fn member_of(value: Json, key: Seq<char>) -> Option<Json> {
    match value {
        Json::Object(members) => find_member(members@, key, 0),
        _ => None,
    }
}

/// The text of a JSON string, `None` for any other value.
pub open spec fn text_of(value: Json) -> Option<Seq<char>> {
    match value {
        Json::Text(t) => Some(t@),
        _ => None,
    }
}

/// The number, where `value` is a whole number that a `u64` holds, else `None`.
pub open spec fn number_of(value: Json) -> Option<u64> {
    match value {
        Json::Number(n) => n,
        _ => None,
    }
}

/// The items of a JSON array in their order, `None` for any other value.
pub open spec fn items_of(value: Json) -> Option<Seq<Json>> {
    match value {
        Json::Array(items) => Some(items@),
        _ => None,
    }
}

impl Json {
    /// The member under `key`, where this is an object that has one.
    pub fn get(&self, key: &str) -> (found: Option<&Json>)
        ensures
            found matches Some(m) ==> member_of(*self, key@) == Some(*m),
            found is None ==> member_of(*self, key@) is None,
    {
        match self {
            Json::Object(members) => {
                let wanted = key.to_owned();
                let mut i: usize = 0;
                while i < members.len()
                    invariant
                        i <= members@.len(),
                        wanted@ == key@,
                        member_of(*self, key@) == find_member(members@, key@, i as int),
                    decreases members@.len() - i,
                {
                    if members[i].0 == wanted {
                        return Some(&members[i].1);
                    }
                    i = i + 1;
                }
                None
            },
            _ => None,
        }
    }

    /// The text, where this is a string.
    pub fn as_str(&self) -> (found: Option<&str>)
        ensures
            found matches Some(t) ==> text_of(*self) == Some(t@),
            found is None ==> text_of(*self) is None,
    {
        match self {
            Json::Text(t) => Some(t.as_str()),
            _ => None,
        }
    }

    /// The number, where this is a whole number that a `u64` holds.
    pub fn as_u64(&self) -> (found: Option<u64>)
        ensures
            found == number_of(*self),
    {
        match self {
            Json::Number(n) => *n,
            _ => None,
        }
    }

    /// The items, where this is an array.
    pub fn as_array(&self) -> (found: Option<&Vec<Json>>)
        ensures
            found matches Some(list) ==> items_of(*self) == Some(list@),
            found is None ==> items_of(*self) is None,
    {
        match self {
            Json::Array(items) => Some(items),
            _ => None,
        }
    }

    /// Tells whether this is an object.
    pub fn is_object(&self) -> (yes: bool)
        ensures
            yes == (*self is Object),
    {
        match self {
            Json::Object(_) => true,
            _ => false,
        }
    }
}

/// A JSON value of `serde_json`. Nothing is known of what is inside.
#[verifier::external_type_specification]
#[verifier::external_body]
pub struct ExValue(serde_json::Value);

/// The error of `serde_json`.
#[verifier::external_type_specification]
#[verifier::external_body]
pub struct ExJsonError(serde_json::Error);

/// The document that `serde_json::from_str` reads from `text`, as plain data; `None`
/// where `text` is no JSON document.
pub uninterp spec fn json_of(text: Seq<char>) -> Option<Json>;

/// Turns a value of `serde_json` into plain data, variant by variant; of a number it
/// keeps what `serde_json::Number::as_u64` gives. It serves `parse` alone and nothing
/// is claimed of it.
#[verifier::external_body]
fn plain(value: &Value) -> Json {
    match value {
        Value::Null => Json::Null,
        Value::Bool(b) => Json::Bool(*b),
        Value::Number(n) => Json::Number(n.as_u64()),
        Value::String(s) => Json::Text(s.clone()),
        Value::Array(items) => Json::Array(items.iter().map(plain).collect()),
        Value::Object(members) => Json::Object(
            members.iter().map(|(k, v)| (k.clone(), plain(v))).collect(),
        ),
    }
}

/// Calls `serde_json::from_str` for a `Value` and turns what it read into plain data.
/// The contract only gives the result a name, which rests on the parser reading the
/// same text in the same way every time.
#[verifier::external_body]
pub(crate) fn parse(text: &str) -> (parsed: Result<Json, serde_json::Error>)
    ensures
        parsed matches Ok(document) ==> json_of(text@) == Some(document),
        parsed is Err ==> json_of(text@) is None,
{
    match serde_json::from_str::<Value>(text) {
        Ok(value) => Ok(plain(&value)),
        Err(e) => Err(e),
    }
}

} // verus!
