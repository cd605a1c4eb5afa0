//! JSON values, as the crate serde_json reads them.
use serde_json::Value;
use vstd::prelude::*;

verus! {

/// A JSON value of serde_json.
#[verifier::external_type_specification]
#[verifier::external_body]
pub struct ExValue(serde_json::Value);

/// What a JSON value is. Of a number only its value as an unsigned integer counts,
/// `None` where it is not one.
pub enum Json {
    Null,
    Bool(bool),
    Number(Option<u64>),
    Text(Seq<char>),
    Array(Seq<Json>),
    Object(Map<Seq<char>, Json>),
}

/// What a value of serde_json holds.
pub uninterp spec fn json_of(v: serde_json::Value) -> Json;

/// What serde_json makes of a text: a value, or the text of its error.
pub uninterp spec fn json_outcome(text: Seq<char>) -> Result<Json, Seq<char>>;

impl Json {
    /// The member of an object, null where there is none.
    pub open spec fn member(self, key: Seq<char>) -> Json {
        match self {
            Json::Object(members) => if members.contains_key(key) {
                members[key]
            } else {
                Json::Null
            },
            _ => Json::Null,
        }
    }

    /// The text of a string.
    pub open spec fn text(self) -> Option<Seq<char>> {
        match self {
            Json::Text(s) => Some(s),
            _ => None,
        }
    }

    /// The value of an unsigned integer.
    pub open spec fn unsigned(self) -> Option<u64> {
        match self {
            Json::Number(n) => n,
            _ => None,
        }
    }
}

/// Calls `serde_json::from_str` for a `serde_json::Value`, the error as its text.
/// The outcome depends on the text alone and is named `json_outcome`.
#[verifier::external_body]
pub(crate) fn parse(text: &str) -> (r: Result<Value, String>)
    ensures
        match r {
            Ok(v) => json_outcome(text@) == Ok::<Json, Seq<char>>(json_of(v)),
            Err(e) => json_outcome(text@) == Err::<Json, Seq<char>>(e@),
        },
{
    serde_json::from_str::<Value>(text).map_err(|e| e.to_string())
}

/// Calls `serde_json::Value::index` with a string: the member of that name, null
/// where the value is no object or has no such member.
#[verifier::external_body]
pub(crate) fn member<'a>(v: &'a Value, key: &str) -> (r: &'a Value)
    ensures
        json_of(*r) == json_of(*v).member(key@),
{
    &v[key]
}

/// Calls `serde_json::Value::as_array`: the elements of an array, `None` for
/// anything else.
#[verifier::external_body]
pub(crate) fn elements(v: &Value) -> (r: Option<&Vec<Value>>)
    ensures
        match r {
            Some(items) => json_of(*v) == Json::Array(items@.map_values(|i: Value| json_of(i))),
            None => !(json_of(*v) is Array),
        },
{
    v.as_array()
}

/// Calls `serde_json::Value::as_str`: the text of a string, `None` for anything
/// else.
#[verifier::external_body]
pub(crate) fn text(v: &Value) -> (r: Option<&str>)
    ensures
        match r {
            Some(s) => json_of(*v).text() == Some(s@),
            None => json_of(*v).text() is None,
        },
{
    v.as_str()
}

/// Calls `serde_json::Value::as_u64`: the value of an unsigned integer, `None` for
/// anything else.
#[verifier::external_body]
pub(crate) fn unsigned(v: &Value) -> (r: Option<u64>)
    ensures
        r == json_of(*v).unsigned(),
{
    v.as_u64()
}

} // verus!
