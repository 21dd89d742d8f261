use pong_core::error::{HostPlatform, IoErrorKind, IoFailure, PongError};
use pong_core::replace::{check_replacement_paths, no_replace_error, retry_windows_io, WINDOWS_IO_ATTEMPTS};

fn failure(kind: IoErrorKind, raw: Option<i32>) -> IoFailure {
    IoFailure {
        kind,
        raw_os_error: raw,
        message: "rename failed".to_string(),
    }
}

#[test]
fn transient_windows_failures_are_retried_within_the_attempt_budget() {
    for code in [5, 32, 33] {
        assert!(retry_windows_io(Some(code), 0));
        assert!(retry_windows_io(Some(code), WINDOWS_IO_ATTEMPTS - 2));
        assert!(!retry_windows_io(Some(code), WINDOWS_IO_ATTEMPTS - 1));
    }
    assert!(!retry_windows_io(Some(2), 0));
    assert!(!retry_windows_io(None, 0));
}

#[test]
fn an_existing_destination_is_a_conflict() {
    let e = no_replace_error(failure(IoErrorKind::AlreadyExists, Some(17)), HostPlatform::Linux);
    assert_eq!(e.code(), "CONFLICT");
    assert_eq!(e.to_string(), "conflict: materialization destination already exists");
    let held = no_replace_error(failure(IoErrorKind::WouldBlock, None), HostPlatform::Windows);
    assert!(matches!(held, PongError::Conflict(_)));
    let denied = no_replace_error(failure(IoErrorKind::PermissionDenied, Some(13)), HostPlatform::Linux);
    assert_eq!(denied.code(), "PERMISSION_DENIED");
    let other = no_replace_error(failure(IoErrorKind::Other, Some(5)), HostPlatform::Linux);
    assert_eq!(other.code(), "IO_ERROR");
}

#[test]
fn replacement_paths_must_differ_and_share_a_directory() {
    assert_eq!(
        check_replacement_paths("/r/.pong/repository.json.tmp", "/r/.pong/repository.json").unwrap(),
        "/r/.pong"
    );
    assert_eq!(check_replacement_paths("a.tmp", "a").unwrap(), "");
    assert_eq!(check_replacement_paths("/a.tmp", "/a").unwrap(), "/");
    let same = check_replacement_paths("/r/x", "/r/x").unwrap_err();
    assert_eq!(
        same.to_string(),
        "invalid input: atomic replacement requires distinct temp and destination paths"
    );
    assert!(check_replacement_paths("/", "/r/x").unwrap_err().to_string().contains("temp path has no parent"));
    assert!(check_replacement_paths("/r/x", "").unwrap_err().to_string().contains("destination path has no parent"));
    assert!(check_replacement_paths("/r/a/x", "/r/b/x")
        .unwrap_err()
        .to_string()
        .contains("in the same directory"));
}
