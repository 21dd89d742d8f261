use pong_core::environment::{
    env_key_is_readable, is_host_identity_key, is_sensitive_key, looks_secret_like,
    validate_env_key, EnvRead, EnvironmentFacts, ENVIRONMENT_SCHEMA_VERSION,
};
use pong_core::error::PongError;
use pong_core::redaction::Redactor;

fn read_for(key: &str, value: Option<&str>) -> (String, EnvRead) {
    let read = if !env_key_is_readable(key) {
        EnvRead::Unread
    } else {
        match value {
            Some(v) => EnvRead::Value(v.to_string()),
            None => EnvRead::Unset,
        }
    };
    (key.to_string(), read)
}

fn facts(os: &str) -> EnvironmentFacts {
    EnvironmentFacts {
        schema_version: ENVIRONMENT_SCHEMA_VERSION.to_string(),
        os: os.to_string(),
        architecture: "test-arch".to_string(),
        family: "test-family".to_string(),
        variables: vec![("SAFE".to_string(), "value".to_string())],
    }
}

#[test]
fn capture_is_allowlisted_and_deterministic() {
    let mut redactor = Redactor::default();
    redactor.register_secret("environment-secret").unwrap();
    let allowlist = vec![
        read_for("PATH", Some("/usr/bin")),
        read_for("PONG_TEST_SECRET", Some("environment-secret")),
    ];
    let first = EnvironmentFacts::capture(&redactor, &allowlist, "linux", "x86_64", "unix")
        .expect("capture");
    let second = EnvironmentFacts::capture(&redactor, &allowlist, "linux", "x86_64", "unix")
        .expect("capture");
    assert_eq!(first, second);
    assert!(!first.variables.iter().any(|(k, _)| k == "PONG_TEST_SECRET"));
    assert_eq!(first.fingerprint().unwrap(), second.fingerprint().unwrap());
}

#[test]
fn persisted_environment_identity_is_immutable() {
    let redactor = Redactor::default();
    let first = facts("test-os")
        .persist(&redactor, "env-1", "project-1", "t1", &None)
        .unwrap();
    assert_eq!(first.environment_id, "env-1");
    assert_eq!(
        facts("test-os")
            .persist(&redactor, "env-1", "project-1", "t2", &Some(first.clone()))
            .unwrap(),
        first
    );
    assert!(matches!(
        facts("other").persist(&redactor, "env-1", "project-1", "t2", &Some(first.clone())),
        Err(PongError::Integrity(_))
    ));
}

#[test]
fn capture_keeps_safe_values_and_redacts_registered_secrets() {
    let mut redactor = Redactor::default();
    redactor.register_secret("hidden-value").unwrap();
    let allowlist = vec![
        read_for("LANG", Some("C")),
        read_for("MODE", Some("with hidden-value inside")),
        read_for("TOKEN_X", Some("x")),
        read_for("LANG", Some("en_US")),
    ];
    let captured = EnvironmentFacts::capture(&redactor, &allowlist, "os", "arch", "family").unwrap();
    assert_eq!(
        captured.variables,
        vec![
            ("LANG".to_string(), "en_US".to_string()),
            ("MODE".to_string(), "with [REDACTED] inside".to_string()),
        ]
    );
    assert_eq!(captured.schema_version, "0.1");
    assert_eq!(captured.os, "os");
}

#[test]
fn capture_drops_secret_shaped_values_and_rejects_bad_input() {
    let redactor = Redactor::default();
    let allowlist = vec![read_for("MODE", Some("sk-abcdef")), read_for("LEVEL", None)];
    let captured = EnvironmentFacts::capture(&redactor, &allowlist, "os", "arch", "family").unwrap();
    assert!(captured.variables.is_empty());

    let bad_key = vec![("BAD-KEY".to_string(), EnvRead::Unread)];
    let error = EnvironmentFacts::capture(&redactor, &bad_key, "o", "a", "f").unwrap_err();
    assert_eq!(error.to_string(), "invalid input: environment allowlist key is invalid");

    let not_utf8 = EnvironmentFacts::capture(
        &redactor,
        &vec![("MODE".to_string(), EnvRead::NotUtf8)],
        "o",
        "a",
        "f",
    )
    .unwrap_err();
    assert_eq!(not_utf8.code(), "INVALID_INPUT");
}

#[test]
fn key_classification_matches_the_capture_policy() {
    assert!(validate_env_key("A_1").is_ok());
    assert!(validate_env_key("").is_err());
    assert!(validate_env_key(&"A".repeat(129)).is_err());
    assert!(is_sensitive_key("GITHUB_TOKEN"));
    assert!(is_sensitive_key("my_Password"));
    assert!(!is_sensitive_key("LANG"));
    assert!(is_host_identity_key("PATH"));
    assert!(is_host_identity_key("ld_library_path"));
    assert!(is_host_identity_key("SSH_AUTH_SOCK"));
    assert!(is_host_identity_key("hostname"));
    assert!(!is_host_identity_key("LANG"));
    assert!(looks_secret_like("Bearer abc"));
    assert!(looks_secret_like("ghp_x"));
    assert!(looks_secret_like(&"a".repeat(32)));
    assert!(!looks_secret_like(&"a".repeat(31)));
    assert!(!looks_secret_like("a b c d e f g h i j k l m n o p q r s"));
}

#[test]
fn captured_variables_are_sorted_by_name_whatever_the_allowlist_order() {
    let redactor = Redactor::default();
    let forward = vec![read_for("ALPHA", Some("1")), read_for("ZULU", Some("2"))];
    let backward = vec![read_for("ZULU", Some("2")), read_for("ALPHA", Some("1"))];
    let a = EnvironmentFacts::capture(&redactor, &forward, "os", "arch", "family").unwrap();
    let b = EnvironmentFacts::capture(&redactor, &backward, "os", "arch", "family").unwrap();
    assert_eq!(a, b);
    assert_eq!(a.variables[0].0, "ALPHA");
    assert_eq!(a.fingerprint().unwrap(), b.fingerprint().unwrap());
}

#[test]
fn fingerprint_digests_the_canonical_bytes() {
    let redactor = Redactor::default();
    let allowlist = vec![read_for("ALPHA", Some("1"))];
    let facts = EnvironmentFacts::capture(&redactor, &allowlist, "os", "arch", "family").unwrap();
    let bytes = facts.canonical_bytes().unwrap();
    assert_eq!(
        facts.fingerprint().unwrap(),
        pong_core::cas::digest_for("environment/v1", &bytes)
    );
    assert_eq!(facts.clone().fingerprint().unwrap(), facts.fingerprint().unwrap());
}
