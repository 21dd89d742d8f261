//! Structured JSON values as the library holds them.
//!
//! Objects keep their members as a sequence of `(name, value)` pairs in the
//! order a JSON map iterates them; numbers are the integer forms a JSON map
//! holds (non-negative as `u64`, negative as `i64`).
use vstd::prelude::*;

verus! {

#[derive(Debug, Clone, Copy, PartialEq, Eq, Structural)]
pub enum JsonNumber {
    PosInt(u64),
    NegInt(i64),
}

#[derive(Debug)]
pub enum JsonValue {
    Null,
    Bool(bool),
    Number(JsonNumber),
    String(String),
    Array(Vec<JsonValue>),
    Object(Vec<(String, JsonValue)>),
}

impl JsonValue {
    pub open spec fn is_object(self) -> bool {
        self is Object
    }

    /// The member named `key` of an object, when there is one.
    pub open spec fn member(self, key: Seq<char>) -> Option<JsonValue> {
        match self {
            JsonValue::Object(entries) => {
                if exists|i: int| 0 <= i < entries@.len() && (#[trigger] entries@[i]).0@ == key {
                    let i = choose|i: int| 0 <= i < entries@.len() && (#[trigger] entries@[i]).0@ == key;
                    Some(entries@[i].1)
                } else {
                    None
                }
            },
            _ => None,
        }
    }

    pub fn text(value: &str) -> (v: JsonValue)
        ensures
            v matches JsonValue::String(s) && s@ == value@,
    {
        JsonValue::String(value.to_owned())
    }

    pub fn optional_text(value: &Option<String>) -> (v: JsonValue)
        ensures
            match value {
                Some(s) => v matches JsonValue::String(t) && t@ == s@,
                None => v is Null,
            },
    {
        match value {
            Some(s) => JsonValue::String(s.clone()),
            None => JsonValue::Null,
        }
    }

    pub fn integer(value: i64) -> (v: JsonValue)
        ensures
            v == JsonValue::Number(number_from_i64(value)),
    {
        if value < 0 {
            JsonValue::Number(JsonNumber::NegInt(value))
        } else {
            JsonValue::Number(JsonNumber::PosInt(value as u64))
        }
    }
}

/// The JSON number that stands for a signed integer.
pub open spec fn number_from_i64(value: i64) -> JsonNumber {
    if value < 0 {
        JsonNumber::NegInt(value)
    } else {
        JsonNumber::PosInt(value as u64)
    }
}

} // verus!
