use pong_core::error::{HostPlatform, IoErrorKind, IoFailure, PongError, SqliteErrorCode};

fn failure(kind: IoErrorKind, raw_os_error: Option<i32>) -> IoFailure {
    IoFailure {
        kind,
        raw_os_error,
        message: "host failure".to_owned(),
    }
}

#[test]
fn permission_denied_io_has_a_stable_domain_code() {
    let error = PongError::from_protected_io(
        failure(IoErrorKind::PermissionDenied, Some(5)),
        HostPlatform::Windows,
    );
    assert_eq!(error.code(), "PERMISSION_DENIED");
    assert_eq!(error.raw_os_error(), Some(5));
    assert_eq!(
        PongError::from_io(
            failure(IoErrorKind::PermissionDenied, None),
            HostPlatform::Linux
        )
        .code(),
        "PERMISSION_DENIED"
    );
}

#[test]
fn protected_permission_retains_an_available_raw_os_error() {
    let error = PongError::from_protected_io(
        failure(IoErrorKind::PermissionDenied, Some(13)),
        HostPlatform::Linux,
    );
    assert_eq!(error.code(), "PERMISSION_DENIED");
    assert_eq!(error.raw_os_error(), Some(13));
    let error = PongError::from_protected_io(
        failure(IoErrorKind::PermissionDenied, Some(5)),
        HostPlatform::Windows,
    );
    assert_eq!(error.code(), "PERMISSION_DENIED");
    assert_eq!(error.raw_os_error(), Some(5));
}

#[test]
fn windows_sharing_violation_is_not_misreported_as_acl_denial() {
    let error = PongError::from_io(failure(IoErrorKind::Other, Some(32)), HostPlatform::Windows);
    assert_eq!(error.code(), "IO_ERROR");
    let error = PongError::from_io(
        failure(IoErrorKind::PermissionDenied, Some(5)),
        HostPlatform::Windows,
    );
    assert_eq!(error.code(), "IO_ERROR");
}

#[test]
fn sqlite_full_has_a_stable_domain_code() {
    let error = PongError::from_sqlite(SqliteErrorCode::DiskFull, "database or disk is full".into());
    assert_eq!(error.code(), "RESOURCE_EXHAUSTED");
}

#[test]
fn sqlite_read_only_has_a_stable_domain_code() {
    let error = PongError::from_sqlite(
        SqliteErrorCode::ReadOnly,
        "attempt to write a readonly database".into(),
    );
    assert_eq!(error.code(), "PERMISSION_DENIED");
}

#[test]
fn capacity_errors_are_resource_exhaustion_per_platform() {
    for (platform, code) in [
        (HostPlatform::Linux, 28),
        (HostPlatform::Linux, 122),
        (HostPlatform::MacOs, 69),
        (HostPlatform::Windows, 112),
    ] {
        let error = PongError::from_io(failure(IoErrorKind::Other, Some(code)), platform);
        assert_eq!(error.code(), "RESOURCE_EXHAUSTED");
    }
    let error = PongError::from_io(failure(IoErrorKind::Other, Some(122)), HostPlatform::MacOs);
    assert_eq!(error.code(), "IO_ERROR");
}

#[test]
fn every_error_kind_has_its_code_and_display_prefix() {
    let cases = [
        (PongError::InvalidInput("x".into()), "INVALID_INPUT", "invalid input: x"),
        (PongError::Integrity("x".into()), "INTEGRITY_ERROR", "integrity error: x"),
        (PongError::NotFound("x".into()), "NOT_FOUND", "not found: x"),
        (PongError::Conflict("x".into()), "CONFLICT", "conflict: x"),
        (
            PongError::IdempotencyKeyReuse("x".into()),
            "IDEMPOTENCY_KEY_REUSE",
            "idempotency key reuse: x",
        ),
        (PongError::Unsupported("x".into()), "UNSUPPORTED", "unsupported: x"),
        (
            PongError::RecoveryRequired("x".into()),
            "RECOVERY_REQUIRED",
            "recovery required: x",
        ),
        (
            PongError::ResourceExhausted("x".into()),
            "RESOURCE_EXHAUSTED",
            "resource exhausted: x",
        ),
        (PongError::PermissionDenied("x".into()), "PERMISSION_DENIED", "permission denied: x"),
        (PongError::FaultInjected("x".into()), "FAULT_INJECTED", "fault injected at x"),
        (PongError::Sqlite("x".into()), "STORAGE_ERROR", "SQLite error: x"),
        (
            PongError::Serialization("x".into()),
            "SERIALIZATION_ERROR",
            "serialization error: x",
        ),
    ];
    for (error, code, text) in cases {
        assert_eq!(error.code(), code);
        assert_eq!(error.to_string(), text);
    }
    let error = PongError::PermissionDeniedWithOsError {
        message: "x".into(),
        raw_os_error: -3,
    };
    assert_eq!(error.to_string(), "permission denied: x (raw_os_error=-3)");
}
