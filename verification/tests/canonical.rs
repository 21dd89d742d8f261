use pong_core::canonical::{canonical_bytes, canonical_digest, canonical_json_bytes};
use pong_core::cas::digest_for;
use pong_core::error::PongError;
use pong_core::json::{JsonNumber, JsonValue};
use serde_json::Value;

fn from_serde(value: &Value) -> JsonValue {
    match value {
        Value::Null => JsonValue::Null,
        Value::Bool(b) => JsonValue::Bool(*b),
        Value::Number(n) => match n.as_u64() {
            Some(u) => JsonValue::Number(JsonNumber::PosInt(u)),
            None => JsonValue::Number(JsonNumber::NegInt(n.as_i64().unwrap())),
        },
        Value::String(s) => JsonValue::String(s.clone()),
        Value::Array(items) => JsonValue::Array(items.iter().map(from_serde).collect()),
        Value::Object(map) => JsonValue::Object(
            map.iter()
                .map(|(key, value)| (key.clone(), from_serde(value)))
                .collect(),
        ),
    }
}

fn parse(text: &str) -> JsonValue {
    from_serde(&serde_json::from_str::<Value>(text).unwrap())
}

#[test]
fn object_keys_are_sorted_recursively() {
    let value = parse(r#"{"z": {"b": 2, "a": 1}, "a": [{"d": 4, "c": 3}]}"#);
    assert_eq!(
        canonical_bytes(&value).unwrap(),
        br#"{"a":[{"c":3,"d":4}],"z":{"a":1,"b":2}}"#
    );
}

#[test]
fn equivalent_object_order_has_identical_bytes_and_digest() {
    let first = parse(r#"{"b":2,"a":1}"#);
    let second = parse(r#"{"a":1,"b":2}"#);
    assert_eq!(
        canonical_bytes(&first).unwrap(),
        canonical_bytes(&second).unwrap()
    );
    assert_eq!(
        canonical_digest("test/object", &first).unwrap(),
        canonical_digest("test/object", &second).unwrap()
    );
}

#[test]
fn strings_use_json_escaping() {
    let value = parse(r#"{"line\n": "quote \" and slash \\"}"#);
    assert_eq!(
        canonical_bytes(&value).unwrap(),
        br#"{"line\n":"quote \" and slash \\"}"#
    );
}

#[test]
fn domain_is_unambiguous() {
    let value = parse(r#"{"ok": true}"#);
    assert!(matches!(
        canonical_digest("", &value),
        Err(PongError::InvalidInput(_))
    ));
    assert!(matches!(
        canonical_digest("bad\0domain", &value),
        Err(PongError::InvalidInput(_))
    ));
}

fn member(name: &str, value: JsonValue) -> (String, JsonValue) {
    (name.to_owned(), value)
}

#[test]
fn member_order_given_by_the_caller_does_not_change_the_encoding() {
    let forward = JsonValue::Object(vec![
        member("alpha", JsonValue::Number(JsonNumber::PosInt(1))),
        member("beta", JsonValue::Bool(false)),
        member("gamma", JsonValue::Null),
    ]);
    let backward = JsonValue::Object(vec![
        member("gamma", JsonValue::Null),
        member("beta", JsonValue::Bool(false)),
        member("alpha", JsonValue::Number(JsonNumber::PosInt(1))),
    ]);
    let expected: &[u8] = br#"{"alpha":1,"beta":false,"gamma":null}"#;
    assert_eq!(canonical_bytes(&forward).unwrap(), expected);
    assert_eq!(canonical_bytes(&backward).unwrap(), expected);
    assert_eq!(
        canonical_digest("test/object", &forward).unwrap(),
        canonical_digest("test/object", &backward).unwrap()
    );
}

#[test]
fn canonical_digest_is_the_domain_digest_of_the_canonical_bytes() {
    let value = JsonValue::Array(vec![
        JsonValue::Number(JsonNumber::NegInt(-7)),
        JsonValue::String("x\u{1}y".to_owned()),
    ]);
    let bytes = canonical_json_bytes(&value).unwrap();
    assert_eq!(bytes, br#"[-7,"x\u0001y"]"#);
    assert_eq!(
        canonical_digest("test/array", &value).unwrap(),
        digest_for("test/array", &bytes)
    );
}

#[test]
fn member_names_order_by_code_point_not_by_length() {
    let value = JsonValue::Object(vec![
        member("b", JsonValue::Null),
        member("ab", JsonValue::Null),
        member("a", JsonValue::Null),
        member("\u{e9}", JsonValue::Null),
        member("Z", JsonValue::Null),
    ]);
    assert_eq!(
        canonical_bytes(&value).unwrap(),
        "{\"Z\":null,\"a\":null,\"ab\":null,\"b\":null,\"\u{e9}\":null}".as_bytes()
    );
}
