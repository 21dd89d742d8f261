use pong_core::error::PongError;
use pong_core::json::{JsonNumber, JsonValue};
use pong_core::redaction::{is_sensitive_key, Redactor};
use serde_json::Value;

fn to_serde(value: &JsonValue) -> Value {
    match value {
        JsonValue::Null => Value::Null,
        JsonValue::Bool(b) => Value::Bool(*b),
        JsonValue::Number(JsonNumber::PosInt(n)) => Value::from(*n),
        JsonValue::Number(JsonNumber::NegInt(n)) => Value::from(*n),
        JsonValue::String(s) => Value::String(s.clone()),
        JsonValue::Array(items) => Value::Array(items.iter().map(to_serde).collect()),
        JsonValue::Object(entries) => {
            let mut map = serde_json::Map::new();
            for (key, value) in entries {
                map.insert(key.clone(), to_serde(value));
            }
            Value::Object(map)
        }
    }
}

fn from_serde(value: &Value) -> JsonValue {
    match value {
        Value::Null => JsonValue::Null,
        Value::Bool(b) => JsonValue::Bool(*b),
        Value::Number(n) => match n.as_u64() {
            Some(u) => JsonValue::Number(JsonNumber::PosInt(u)),
            None => JsonValue::Number(JsonNumber::NegInt(n.as_i64().unwrap())),
        },
        Value::String(s) => JsonValue::String(s.clone()),
        Value::Array(items) => JsonValue::Array(items.iter().map(from_serde).collect()),
        Value::Object(map) => JsonValue::Object(
            map.iter()
                .map(|(key, value)| (key.clone(), from_serde(value)))
                .collect(),
        ),
    }
}

fn parse(text: &str) -> JsonValue {
    from_serde(&serde_json::from_str::<Value>(text).unwrap())
}

#[test]
fn redaction_is_deterministic_and_recursive() {
    let mut redactor = Redactor::new("test", "0.1").unwrap();
    redactor.register_secret("sk-test-secret").unwrap();
    let value = parse(r#"{"nested": ["sk-test-secret", {"password": "not persisted"}], "safe": "ok"}"#);
    let expected: Value =
        serde_json::from_str(r#"{"nested": ["[REDACTED]", {"password": "[REDACTED]"}], "safe": "ok"}"#)
            .unwrap();
    assert_eq!(to_serde(&redactor.redact_value(&value)), expected);
    assert_eq!(to_serde(&redactor.redact_value(&value)), expected);
}

#[test]
fn short_registered_secrets_are_rejected() {
    let mut redactor = Redactor::default();
    assert!(matches!(
        redactor.register_secret("abc"),
        Err(PongError::InvalidInput(_))
    ));
}

#[test]
fn secret_bearing_object_keys_are_replaced_without_collisions() {
    let mut redactor = Redactor::default();
    redactor.register_secret("key-secret").unwrap();
    let value = parse(r#"{"key-secret": 1, "[REDACTED]": 2}"#);
    let redacted = to_serde(&redactor.redact_value(&value));
    let expected: Value = serde_json::from_str(r#"{"[REDACTED]": 2, "[REDACTED]#1": 1}"#).unwrap();
    assert_eq!(redacted, expected);
    assert!(!redactor.contains_secret(serde_json::to_string(&redacted).unwrap().as_bytes()));
}

#[test]
fn byte_scan_fails_closed_without_disclosing_secret() {
    let mut redactor = Redactor::default();
    redactor.register_secret("scan-secret").unwrap();
    let error = redactor
        .assert_clean_bytes(b"prefix scan-secret suffix", "fixture")
        .expect_err("secret must be rejected");
    assert_eq!(error.code(), "INTEGRITY_ERROR");
    assert!(!error.to_string().contains("scan-secret"));
}

#[test]
fn debug_representation_does_not_expose_registered_secrets() {
    let mut redactor = Redactor::default();
    redactor.register_secret("debug-secret").unwrap();
    let debug = format!("{redactor:?}");
    assert!(!debug.contains("debug-secret"));
    assert!(debug.contains("secret_count"));
}

#[test]
fn secrets_are_kept_longest_first_and_without_repeats() {
    let mut redactor = Redactor::default();
    redactor.register_secret("abcd").unwrap();
    redactor.register_secret("abcdefgh").unwrap();
    redactor.register_secret("abcd").unwrap();
    assert_eq!(redactor.redact_text("xxabcdefghyy abcd"), "xx[REDACTED]yy [REDACTED]");
    assert_eq!(redactor.diagnostic_fields().2, 2);
}

#[test]
fn sensitive_names_match_whole_names_and_underscore_suffixes() {
    assert!(is_sensitive_key("Password"));
    assert!(is_sensitive_key("github_TOKEN"));
    assert!(!is_sensitive_key("tokenizer"));
    assert!(!is_sensitive_key("mytoken"));
}

#[test]
fn empty_profile_identity_is_invalid_input() {
    assert!(matches!(Redactor::new("", "0.1"), Err(PongError::InvalidInput(_))));
    let redactor = Redactor::new("p", "1").unwrap();
    assert_eq!(redactor.profile().id, "p");
    assert_eq!(redactor.profile_id(), "p");
    assert_eq!(redactor.version(), "1");
}

#[test]
fn debug_text_shows_the_identity_and_secret_count_only() {
    let mut redactor = Redactor::default();
    redactor.register_secret("debug-secret").unwrap();
    assert_eq!(
        redactor.debug_text(),
        "Redactor { profile_id: \"default\", version: \"0.1\", secret_count: 1 }"
    );
    assert_eq!(format!("{redactor:?}"), redactor.debug_text());
}

#[test]
fn clean_text_is_unchanged_and_registered_secrets_are_detected() {
    let mut redactor = Redactor::default();
    assert!(!redactor.contains_secret(b"anything at all"));
    redactor.register_secret("abcd").unwrap();
    redactor.register_secret("abcdef").unwrap();
    assert_eq!(redactor.redact_text("nothing to hide"), "nothing to hide");
    assert_eq!(redactor.redact_text("xabcdefx"), "x[REDACTED]x");
    assert!(redactor.contains_secret(b"abcd"));
    assert!(redactor.contains_secret(b"--abcdef--"));
    assert!(!redactor.contains_secret(b"abc"));
}
