//! JSON documents as plain values, parsed with serde_json, and the lookups
//! that reading a document needs.
use crate::text::str_equal;
use vstd::prelude::*;
use vstd::string::*;

verus! {

/// A JSON value. A number keeps only its value as an `i64`, when it has one
/// (`serde_json::Number::as_i64`); an object keeps its entries in the order
/// serde_json's map gives them, one entry per key.
pub enum JsonValue {
    Null,
    Bool(bool),
    Number(Option<i64>),
    Str(String),
    Array(Vec<JsonValue>),
    Object(Vec<(String, JsonValue)>),
}

#[verifier::external_type_specification]
#[verifier::external_body]
pub struct ExJsonDocument(serde_json::Value);

/// Name for what `serde_json::from_str::<serde_json::Value>` gives for a text:
/// the document as a `JsonValue`, or the text of the parse error.
pub uninterp spec fn json_parsed(text: Seq<char>) -> Result<JsonValue, Seq<char>>;

/// A serde_json value as a `JsonValue`, variant by variant. Nothing is stated
/// of the result: what the value holds is not visible here; `parse_json`
/// states what the two together give.
#[verifier::external_body]
fn json_tree(v: &serde_json::Value) -> (r: JsonValue) {
    match v {
        serde_json::Value::Null => JsonValue::Null,
        serde_json::Value::Bool(b) => JsonValue::Bool(*b),
        serde_json::Value::Number(n) => JsonValue::Number(n.as_i64()),
        serde_json::Value::String(s) => JsonValue::Str(s.clone()),
        serde_json::Value::Array(a) => JsonValue::Array(a.iter().map(json_tree).collect()),
        serde_json::Value::Object(o) => JsonValue::Object(
            o.iter().map(|(k, x)| (k.clone(), json_tree(x))).collect(),
        ),
    }
}

/// Parses a JSON text with `serde_json::from_str` into `serde_json::Value`,
/// converted to a `JsonValue`; a parse error comes back as its message
/// (`serde_json::Error`'s `Display`). Trusted: the result is
/// `json_parsed(text)`.
#[verifier::external_body]
pub fn parse_json(text: &str) -> (r: Result<JsonValue, String>)
    ensures
        match r {
            Ok(j) => json_parsed(text@) == Ok::<JsonValue, Seq<char>>(j),
            Err(e) => json_parsed(text@) == Err::<JsonValue, Seq<char>>(e@),
        },
{
    match serde_json::from_str::<serde_json::Value>(text) {
        Ok(v) => Ok(json_tree(&v)),
        Err(e) => Err(e.to_string()),
    }
}

/// The value of the first entry named `key`.
pub open spec fn entry_value(entries: Seq<(String, JsonValue)>, key: Seq<char>) -> Option<JsonValue>
    decreases entries.len(),
{
    if entries.len() == 0 {
        None
    } else if entries[0].0@ == key {
        Some(entries[0].1)
    } else {
        entry_value(entries.drop_first(), key)
    }
}

/// The member `key` of an object (`serde_json::Value::get`); `None` for a
/// missing member and for a value that is not an object.
pub open spec fn json_get(j: JsonValue, key: Seq<char>) -> Option<JsonValue> {
    match j {
        JsonValue::Object(entries) => entry_value(entries@, key),
        _ => None,
    }
}

/// The text of a value that is a string (`as_str`).
pub open spec fn json_text(v: Option<JsonValue>) -> Option<Seq<char>> {
    match v {
        Some(JsonValue::Str(s)) => Some(s@),
        _ => None,
    }
}

/// The integer of a value that is a number with an `i64` value (`as_i64`).
pub open spec fn json_int(v: Option<JsonValue>) -> Option<i64> {
    match v {
        Some(JsonValue::Number(n)) => n,
        _ => None,
    }
}

/// The member `key` of `j`, when `j` is an object that has one.
pub fn json_field<'a>(j: &'a JsonValue, key: &str) -> (r: Option<&'a JsonValue>)
    ensures
        match r {
            Some(x) => json_get(*j, key@) == Some(*x),
            None => json_get(*j, key@) is None,
        },
{
    match j {
        JsonValue::Object(entries) => {
            let mut i: usize = 0;
            assert(entries@.skip(0) =~= entries@);
            while i < entries.len()
                invariant
                    i <= entries.len(),
                    entry_value(entries@, key@) == entry_value(entries@.skip(i as int), key@),
                    json_get(*j, key@) == entry_value(entries@, key@),
                decreases entries.len() - i,
            {
                assert(entries@.skip(i as int).drop_first() =~= entries@.skip(i + 1));
                assert(entries@.skip(i as int)[0] == entries@[i as int]);
                if str_equal(entries[i].0.as_str(), key) {
                    return Some(&entries[i].1);
                }
                i = i + 1;
            }
            assert(entries@.skip(i as int) =~= Seq::<(String, JsonValue)>::empty());
            None
        },
        _ => None,
    }
}

/// A copy of the text of a value that is a string.
pub fn json_string(v: Option<&JsonValue>) -> (r: Option<String>)
    ensures
        crate::metadata::opt_chars(r) == json_text(
            match v {
                Some(x) => Some(*x),
                None => None,
            },
        ),
{
    match v {
        Some(JsonValue::Str(s)) => Some(s.clone()),
        _ => None,
    }
}

/// The integer of a value that is a number with an `i64` value.
pub fn json_integer(v: Option<&JsonValue>) -> (r: Option<i64>)
    ensures
        r == json_int(
            match v {
                Some(x) => Some(*x),
                None => None,
            },
        ),
{
    match v {
        Some(JsonValue::Number(n)) => *n,
        _ => None,
    }
}

} // verus!
