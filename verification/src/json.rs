//! A JSON document as plain values, and the lookups that the response
//! interpreters make on it.
use vstd::prelude::*;
use serde_json::Value;
use crate::text::{
    parse_i64, parse_i64_chars, parse_i64_str, parse_int, parse_u64_chars, str_chars, str_eq,
};

verus! {

/// A JSON value. A number is kept as the text `serde_json` writes for it.
pub enum JsonValue {
    Null,
    Bool(bool),
    Number(String),
    Str(String),
    Array(Vec<JsonValue>),
    Object(Vec<(String, JsonValue)>),
}

/// Turns a borrowed option into an owned one, for stating contracts.
pub open spec fn deref_opt<T>(o: Option<&T>) -> Option<T> {
    match o {
        Some(x) => Some(*x),
        None => None,
    }
}

/// The value stored under `key` among object entries (first match).
pub open spec fn entries_get(es: Seq<(String, JsonValue)>, key: Seq<char>) -> Option<JsonValue>
    decreases es.len(),
{
    if es.len() == 0 {
        None
    } else if es[0].0@ == key {
        Some(es[0].1)
    } else {
        entries_get(es.drop_first(), key)
    }
}

/// `Value::get(key)`: a field of an object, `None` for anything else.
pub open spec fn json_get(v: JsonValue, key: Seq<char>) -> Option<JsonValue> {
    match v {
        JsonValue::Object(es) => entries_get(es@, key),
        _ => None,
    }
}

/// `Value::get(index)`: an element of an array, `None` for anything else.
pub open spec fn json_at(v: JsonValue, i: int) -> Option<JsonValue> {
    match v {
        JsonValue::Array(a) => if 0 <= i < a@.len() {
            Some(a@[i])
        } else {
            None
        },
        _ => None,
    }
}

/// `get(key)` on an optional value.
pub open spec fn opt_get(v: Option<JsonValue>, key: Seq<char>) -> Option<JsonValue> {
    match v {
        Some(x) => json_get(x, key),
        None => None,
    }
}

/// `get(index)` on an optional value.
pub open spec fn opt_at(v: Option<JsonValue>, i: int) -> Option<JsonValue> {
    match v {
        Some(x) => json_at(x, i),
        None => None,
    }
}

/// `Value::as_str`.
pub open spec fn json_str(v: JsonValue) -> Option<Seq<char>> {
    match v {
        JsonValue::Str(s) => Some(s@),
        _ => None,
    }
}

/// `as_str` on an optional value.
pub open spec fn opt_str(v: Option<JsonValue>) -> Option<Seq<char>> {
    match v {
        Some(x) => json_str(x),
        None => None,
    }
}

/// `Value::as_bool`.
pub open spec fn json_bool(v: JsonValue) -> Option<bool> {
    match v {
        JsonValue::Bool(b) => Some(b),
        _ => None,
    }
}

/// `Number::as_i64` on the text of a number: an integer within `i64`.
pub open spec fn number_as_i64(t: Seq<char>) -> Option<i64> {
    parse_i64(t)
}

/// `Number::as_u64` on the text of a number: an integer within `u64`.
pub open spec fn number_as_u64(t: Seq<char>) -> Option<u64> {
    match parse_int(t) {
        Some(n) => if 0 <= n <= u64::MAX {
            Some(n as u64)
        } else {
            None
        },
        None => None,
    }
}

/// `n.as_i64().or_else(|| n.as_u64().map(|u| u as i64))` on a JSON number:
/// integers only, an unsigned one wrapping into `i64`.
pub open spec fn json_number_i64(v: JsonValue) -> Option<i64> {
    match v {
        JsonValue::Number(t) => match number_as_i64(t@) {
            Some(i) => Some(i),
            None => match number_as_u64(t@) {
                Some(u) => Some(u as i64),
                None => None,
            },
        },
        _ => None,
    }
}

/// The integer reading of a field used throughout the client: a JSON
/// integer as above, or a string that parses as an `i64`.
pub open spec fn json_to_i64(v: JsonValue) -> Option<i64> {
    match v {
        JsonValue::Str(s) => parse_i64(s@),
        _ => json_number_i64(v),
    }
}

/// `json_to_i64` on an optional value.
pub open spec fn opt_to_i64(v: Option<JsonValue>) -> Option<i64> {
    match v {
        Some(x) => json_to_i64(x),
        None => None,
    }
}

/// `json_to_i64(v).map(|n| n as i32)`.
pub open spec fn json_to_i32(v: JsonValue) -> Option<i32> {
    match json_to_i64(v) {
        Some(n) => Some(n as i32),
        None => None,
    }
}

/// `json_to_i32` on a field that defaults to `Null` when absent.
pub open spec fn field_i32_or_zero(v: JsonValue, key: Seq<char>) -> i32 {
    match json_get(v, key) {
        Some(x) => match json_to_i32(x) {
            Some(n) => n,
            None => 0,
        },
        None => 0,
    }
}

impl JsonValue {
    /// `Value::get(key)`.
    pub fn get(&self, key: &str) -> (r: Option<&JsonValue>)
        ensures
            deref_opt(r) == json_get(*self, key@),
    {
        match self {
            JsonValue::Object(es) => {
                let mut i: usize = 0;
                assert(json_get(*self, key@) == entries_get(es@, key@));
                assert(es@.subrange(0, es.len() as int) == es@);
                while i < es.len()
                    invariant
                        i <= es.len(),
                        json_get(*self, key@) == entries_get(es@, key@),
                        entries_get(es@, key@) == entries_get(es@.subrange(i as int, es.len() as int), key@),
                    decreases es.len() - i,
                {
                    let ghost rest = es@.subrange(i as int, es.len() as int);
                    assert(rest.drop_first() == es@.subrange(i + 1, es.len() as int));
                    assert(rest[0] == es@[i as int]);
                    if str_eq(es[i].0.as_str(), key) {
                        assert(entries_get(rest, key@) == Some(rest[0].1));
                        return Some(&es[i].1);
                    }
                    assert(entries_get(rest, key@) == entries_get(rest.drop_first(), key@));
                    i = i + 1;
                }
                None
            },
            _ => None,
        }
    }

    /// `Value::get(index)`.
    pub fn at(&self, i: usize) -> (r: Option<&JsonValue>)
        ensures
            deref_opt(r) == json_at(*self, i as int),
    {
        match self {
            JsonValue::Array(a) => if i < a.len() {
                Some(&a[i])
            } else {
                None
            },
            _ => None,
        }
    }

    /// `Value::as_str`.
    pub fn as_str(&self) -> (r: Option<&String>)
        ensures
            match r {
                Some(s) => json_str(*self) == Some(s@),
                None => json_str(*self) is None,
            },
    {
        match self {
            JsonValue::Str(s) => Some(s),
            _ => None,
        }
    }

    /// `Value::as_array`.
    pub fn as_array(&self) -> (r: Option<&Vec<JsonValue>>)
        ensures
            match r {
                Some(a) => *self == JsonValue::Array(*a),
                None => !(*self is Array),
            },
    {
        match self {
            JsonValue::Array(a) => Some(a),
            _ => None,
        }
    }

    /// `Value::as_bool`.
    pub fn as_bool(&self) -> (r: Option<bool>)
        ensures
            r == json_bool(*self),
    {
        match self {
            JsonValue::Bool(b) => Some(*b),
            _ => None,
        }
    }

    /// `Value::is_null`.
    pub fn is_null(&self) -> (r: bool)
        ensures
            r == (*self is Null),
    {
        match self {
            JsonValue::Null => true,
            _ => false,
        }
    }

    /// Integer reading of a JSON number (see `json_number_i64`).
    pub fn number_i64(&self) -> (r: Option<i64>)
        ensures
            r == json_number_i64(*self),
    {
        match self {
            JsonValue::Number(t) => {
                let v = str_chars(t.as_str());
                match parse_i64_chars(&v) {
                    Some(i) => Some(i),
                    None => match parse_u64_chars(&v) {
                        Some(u) => Some(u as i64),
                        None => None,
                    },
                }
            },
            _ => None,
        }
    }

    /// Integer reading of a number or numeric string (see `json_to_i64`).
    pub fn to_i64(&self) -> (r: Option<i64>)
        ensures
            r == json_to_i64(*self),
    {
        match self {
            JsonValue::Str(s) => parse_i64_str(s.as_str()),
            _ => self.number_i64(),
        }
    }

    /// `to_i64` narrowed to `i32` with truncation, as `n as i32` does.
    pub fn to_i32(&self) -> (r: Option<i32>)
        ensures
            r == json_to_i32(*self),
    {
        match self.to_i64() {
            Some(n) => Some(n as i32),
            None => None,
        }
    }

    /// `as_i32(v.get(key).unwrap_or(&Value::Null)).unwrap_or(0)`.
    pub fn field_i32_or_zero(&self, key: &str) -> (r: i32)
        ensures
            r == field_i32_or_zero(*self, key@),
    {
        match self.get(key) {
            Some(x) => match x.to_i32() {
                Some(n) => n,
                None => 0,
            },
            None => 0,
        }
    }
}

/// The outcome of parsing a JSON text: the value, or the text of the error.
pub open spec fn parse_outcome(r: Result<JsonValue, String>) -> Result<JsonValue, Seq<char>> {
    match r {
        Ok(v) => Ok(v),
        Err(e) => Err(e@),
    }
}

/// What `serde_json` makes of a JSON text: the value (numbers split as in
/// `JsonValue`, object fields in the order it keeps them), or its error
/// message.
pub uninterp spec fn parsed_json(text: Seq<char>) -> Result<JsonValue, Seq<char>>;

/// `serde_json::Value`, carried through the conversions below.
#[verifier::external_type_specification]
#[verifier::external_body]
pub struct ExValue(serde_json::Value);

/// `serde_json::from_str::<Value>(text)`, converted to a `JsonValue` one
/// node for one; an error becomes its display text.
#[verifier::external_body]
pub(crate) fn parse_json(text: &str) -> (r: Result<JsonValue, String>)
    ensures
        parse_outcome(r) == parsed_json(text@),
{
    match serde_json::from_str::<Value>(text) {
        Ok(v) => Ok(json_of_value(&v)),
        Err(e) => Err(e.to_string()),
    }
}

/// Converts a `serde_json::Value` into a `JsonValue`, node for node; a
/// number becomes the text its `Display` writes.
#[verifier::external_body]
fn json_of_value(v: &Value) -> JsonValue {
    match v {
        Value::Null => JsonValue::Null,
        Value::Bool(b) => JsonValue::Bool(*b),
        Value::Number(n) => JsonValue::Number(n.to_string()),
        Value::String(s) => JsonValue::Str(s.clone()),
        Value::Array(a) => JsonValue::Array(a.iter().map(json_of_value).collect()),
        Value::Object(m) => JsonValue::Object(m.iter().map(|(k, x)| (k.clone(), json_of_value(x))).collect()),
    }
}

/// `serde_json::from_str(text).unwrap_or(Value::Null)`.
pub open spec fn parsed_or_null(text: Seq<char>) -> JsonValue {
    match parsed_json(text) {
        Ok(v) => v,
        Err(_) => JsonValue::Null,
    }
}

/// `serde_json::from_str(text).unwrap_or(Value::Null)`.
pub fn parse_json_or_null(text: &str) -> (r: JsonValue)
    ensures
        r == parsed_or_null(text@),
{
    match parse_json(text) {
        Ok(v) => v,
        Err(_) => JsonValue::Null,
    }
}

/// `Value::as_i64`: a number that is an integer within `i64`.
pub open spec fn json_i64(v: JsonValue) -> Option<i64> {
    match v {
        JsonValue::Number(t) => number_as_i64(t@),
        _ => None,
    }
}

/// The compact JSON text that `serde_json` writes for a value (its
/// `Display`).
pub uninterp spec fn json_text(v: JsonValue) -> Seq<char>;

/// `value.to_string()` for the `serde_json::Value` that a `JsonValue`
/// stands for.
#[verifier::external_body]
pub(crate) fn json_to_text(v: &JsonValue) -> (r: String)
    ensures
        r@ == json_text(*v),
{
    value_of_json(v).to_string()
}

/// Converts a `JsonValue` back into a `serde_json::Value`, node for node; a
/// number's text is read back by `serde_json`.
#[verifier::external_body]
fn value_of_json(v: &JsonValue) -> Value {
    match v {
        JsonValue::Null => Value::Null,
        JsonValue::Bool(b) => Value::Bool(*b),
        JsonValue::Number(t) => serde_json::from_str(t).unwrap_or(Value::Null),
        JsonValue::Str(s) => Value::String(s.clone()),
        JsonValue::Array(a) => Value::Array(a.iter().map(value_of_json).collect()),
        JsonValue::Object(es) => Value::Object(es.iter().map(|(k, x)| (k.clone(), value_of_json(x))).collect()),
    }
}

} // verus!
