use pong_core::cas::{
    digest_for, digest_hex, fault_error, scan_entry_step, Cas, CasFailPoint, CasFailpoints,
    CasFaultAction, Digest, ScanStep, StoreContents, StoredObject,
};
use pong_core::error::PongError;
use pong_core::path::EntryKind;
use pong_core::redaction::Redactor;
use sha2::Digest as Sha2Digest;

const ROOT: &str = "/srv/pong/.pong/cas";

fn fresh() -> Cas {
    Cas::new(ROOT, StoreContents::empty()).unwrap()
}

fn with_fault(point: CasFailPoint, action: CasFaultAction) -> Cas {
    Cas::new_with_failpoints(ROOT, CasFailpoints::once(point, action), StoreContents::empty()).unwrap()
}

#[test]
fn digest_includes_domain_separator_and_exact_bytes() {
    assert_ne!(digest_for("a", b"bc"), digest_for("ab", b"c"));
    assert_ne!(digest_for("x", b""), digest_for("x", b"\0"));
}

#[test]
fn malformed_digest_and_domain_are_rejected() {
    assert!(Digest::from_hex("00").is_err());
    let mut cas = fresh();
    assert!(matches!(
        cas.put("bad\0domain", b"x"),
        Err(PongError::InvalidInput(_))
    ));
}

#[test]
fn digest_hex_round_trips_through_from_hex() {
    let digest = digest_for("snapshot/v1", b"hello");
    let hex = digest.to_hex();
    assert_eq!(hex.len(), 64);
    assert_eq!(hex, digest_hex("snapshot/v1", b"hello"));
    assert_eq!(Digest::from_hex(&hex).unwrap(), digest);
    assert!(Digest::from_hex(&hex[..62]).is_err());
    assert!(Digest::from_hex(&hex.replace(&hex[..1], "g")).is_err());
}

#[test]
fn digest_is_sha256_of_domain_nul_and_bytes() {
    let expected = hex::encode(sha2::Sha256::digest(b"x\0abc"));
    assert_eq!(digest_hex("x", b"abc"), expected);
    let expected_empty = hex::encode(sha2::Sha256::digest(b"x\0"));
    assert_eq!(digest_hex("x", b""), expected_empty);
    let digest = digest_for("x", b"abc");
    assert_eq!(hex::encode(digest.as_bytes()), digest.to_hex());
    let slice: &[u8] = digest.as_ref();
    assert_eq!(slice, &digest.as_bytes()[..]);
    assert_eq!(digest.as_slice(), slice);
}

#[test]
fn put_get_and_repeat_are_verified() {
    let mut cas = fresh();
    let digest = cas.put("snapshot/v1", b"hello").unwrap();
    assert_eq!(digest, digest_for("snapshot/v1", b"hello"));
    assert_eq!(cas.get("snapshot/v1", digest).unwrap(), b"hello");
    assert_eq!(cas.put("snapshot/v1", b"hello").unwrap(), digest);
    assert!(cas.has_object(digest));
    assert_eq!(cas.objects().len(), 1);
    assert!(cas.object_path(digest).starts_with("/srv/pong/.pong/cas/objects/"));
    assert!(cas.staging().is_empty());
}

#[test]
fn put_digests_under_the_domain_and_repeats_identically() {
    let mut cas = fresh();
    let first = cas.put("snapshot/v1", b"hello").unwrap();
    let second = cas.put("snapshot/v1", b"hello").unwrap();
    assert_eq!(first, second);
    assert_eq!(first, digest_for("snapshot/v1", b"hello"));
    assert_ne!(first, cas.put("snapshot/v2", b"hello").unwrap());
    assert_eq!(cas.objects().len(), 2);
}

#[test]
fn missing_objects_are_not_found() {
    let mut cas = fresh();
    let digest = digest_for("snapshot/v1", b"absent");
    let error = cas.get("snapshot/v1", digest).unwrap_err();
    assert_eq!(error.code(), "NOT_FOUND");
    assert_eq!(
        error.to_string(),
        format!("not found: CAS object {} does not exist", digest.to_hex())
    );
    assert!(!cas.has_object(digest));
}

#[test]
fn configured_secret_is_rejected_before_cas_publication() {
    let mut redactor = Redactor::default();
    redactor.register_secret("cas-secret").unwrap();
    let mut cas = Cas::new_with_redactor(ROOT, redactor, StoreContents::empty()).unwrap();
    let error = cas
        .put("snapshot/v1", b"payload with cas-secret")
        .expect_err("secret-bearing CAS object must fail closed");
    assert_eq!(error.code(), "INTEGRITY_ERROR");
    assert!(!error.to_string().contains("cas-secret"));
    assert!(cas.objects().is_empty());
}

#[test]
fn wrong_expected_digest_is_rejected_before_publication() {
    let mut cas = fresh();
    let wrong = digest_for("other", b"hello");
    assert!(matches!(
        cas.put_verified("snapshot/v1", wrong, b"hello"),
        Err(PongError::Integrity(_))
    ));
    assert!(cas.objects().is_empty());
    let right = digest_for("snapshot/v1", b"hello");
    assert!(cas.put_verified("snapshot/v1", right, b"hello").is_ok());
    assert_eq!(cas.objects().len(), 1);
}

#[test]
fn object_path_shards_by_the_first_two_hex_digits() {
    let cas = fresh();
    let digest = digest_for("snapshot/v1", b"hello");
    let hex = digest.to_hex();
    assert_eq!(
        cas.object_path(digest),
        format!("/srv/pong/.pong/cas/objects/{}/{}", &hex[..2], &hex[2..])
    );
}

#[test]
fn failpoints_fire_once_at_their_point() {
    let mut cas = with_fault(CasFailPoint::Publication, CasFaultAction::Fail);
    assert_eq!(cas.take_fault(CasFailPoint::StagingWrite), CasFaultAction::Continue);
    assert_eq!(
        cas.failpoints().armed(),
        Some((CasFailPoint::Publication, CasFaultAction::Fail))
    );
    assert_eq!(cas.take_fault(CasFailPoint::Publication), CasFaultAction::Fail);
    assert_eq!(cas.failpoints().armed(), None);
    assert_eq!(cas.take_fault(CasFailPoint::Publication), CasFaultAction::Continue);
}

#[test]
fn staging_write_follows_the_armed_fault() {
    let mut cas = with_fault(CasFailPoint::StagingWrite, CasFaultAction::ShortWrite(2));
    let write = cas.staging_write(7);
    assert_eq!(write.write_len, 2);
    assert!(!write.sync);
    assert_eq!(write.error.unwrap().code(), "FAULT_INJECTED");
    let write = cas.staging_write(7);
    assert_eq!(write.write_len, 7);
    assert!(write.sync);
    assert!(write.error.is_none());
}

#[test]
fn fault_errors_carry_a_stable_code_and_reason() {
    let error = fault_error(CasFailPoint::StagingWrite, CasFaultAction::PermissionDenied);
    assert_eq!(error.code(), "PERMISSION_DENIED");
    assert!(error.to_string().contains("permission_denied"));
    let error = fault_error(CasFailPoint::StagingWrite, CasFaultAction::QuotaExhausted(2));
    assert_eq!(error.code(), "RESOURCE_EXHAUSTED");
    assert!(error.to_string().contains("quota_exhausted"));
    let error = fault_error(CasFailPoint::DirectorySync, CasFaultAction::Fail);
    assert_eq!(error.code(), "FAULT_INJECTED");
    assert_eq!(error.to_string(), "fault injected at cas_directory_sync");
}

#[test]
fn tampering_is_integrity_error_and_quarantined() {
    let mut cas = fresh();
    let digest = cas.put("snapshot/v1", b"hello").unwrap();
    let mut contents = cas.into_contents();
    contents.objects[0].bytes = b"tampered".to_vec();
    let mut cas = Cas::new(ROOT, contents).unwrap();
    assert!(matches!(
        cas.get("snapshot/v1", digest),
        Err(PongError::Integrity(_))
    ));
    assert_eq!(cas.quarantined().len(), 1);
    assert!(cas.objects().is_empty());
    assert!(!cas.has_object(digest));
}

#[test]
fn injected_short_write_cleans_staging_and_publishes_nothing() {
    let mut cas = with_fault(CasFailPoint::StagingWrite, CasFaultAction::ShortWrite(2));
    let error = cas.put("snapshot/v1", b"payload").unwrap_err();
    assert_eq!(error.code(), "FAULT_INJECTED");
    assert_eq!(cas.failpoints().armed(), None);
    assert!(!cas.has_object(digest_for("snapshot/v1", b"payload")));
    assert!(cas.staging().is_empty());
}

#[test]
fn injected_publication_failure_cleans_staging() {
    let mut cas = with_fault(CasFailPoint::Publication, CasFaultAction::Fail);
    let error = cas.put("snapshot/v1", b"payload").unwrap_err();
    assert_eq!(error.code(), "FAULT_INJECTED");
    assert_eq!(cas.failpoints().armed(), None);
    assert!(!cas.has_object(digest_for("snapshot/v1", b"payload")));
    assert!(cas.staging().is_empty());
}

#[test]
fn injected_permission_failure_is_stable_without_changing_host_acl() {
    let mut cas = with_fault(CasFailPoint::StagingWrite, CasFaultAction::PermissionDenied);
    let error = cas.put("snapshot/v1", b"payload").unwrap_err();
    assert_eq!(error.code(), "PERMISSION_DENIED");
    assert!(error.to_string().contains("permission_denied"));
    assert!(!cas.has_object(digest_for("snapshot/v1", b"payload")));
}

#[test]
fn injected_quota_failure_cleans_partial_staging_bytes() {
    let mut cas = with_fault(CasFailPoint::StagingWrite, CasFaultAction::QuotaExhausted(2));
    let error = cas.put("snapshot/v1", b"payload").unwrap_err();
    assert_eq!(error.code(), "RESOURCE_EXHAUSTED");
    assert!(error.to_string().contains("quota_exhausted"));
    assert!(!cas.has_object(digest_for("snapshot/v1", b"payload")));
    assert!(cas.staging().is_empty());
}

#[test]
fn injected_directory_sync_failure_leaves_a_retryable_published_object() {
    let mut cas = with_fault(CasFailPoint::DirectorySync, CasFaultAction::Fail);
    let digest = digest_for("snapshot/v1", b"payload");
    let error = cas.put("snapshot/v1", b"payload").unwrap_err();
    assert_eq!(error.code(), "FAULT_INJECTED");
    assert!(cas.staging().is_empty());
    assert!(cas.has_object(digest));
    assert_eq!(cas.put("snapshot/v1", b"payload").unwrap(), digest);
    assert_eq!(cas.objects().len(), 1);
}

#[test]
fn existing_secret_bytes_block_cas_startup() {
    let mut cas = fresh();
    let digest = cas.put("snapshot/v1", b"payload with cas-secret").unwrap();
    let contents = cas.into_contents();
    let mut redactor = Redactor::default();
    redactor.register_secret("cas-secret").unwrap();
    let error = match Cas::new_with_redactor(ROOT, redactor, contents.clone()) {
        Ok(_) => panic!("existing secret object must block startup"),
        Err(error) => error,
    };
    assert_eq!(error.code(), "INTEGRITY_ERROR");
    assert_eq!(contents.objects.len(), 1);
    assert_eq!(contents.objects[0].digest, digest);
}

#[test]
fn injected_startup_scan_failure_does_not_disable_normal_reopen() {
    let mut cas = fresh();
    let digest = cas.put("snapshot/v1", b"payload").unwrap();
    let contents = cas.into_contents();

    let failpoints = CasFailpoints::once(CasFailPoint::StartupScan, CasFaultAction::Fail);
    let error = match Cas::new_with_failpoints(ROOT, failpoints, contents.clone()) {
        Ok(_) => panic!("startup scan fault must fail startup"),
        Err(error) => error,
    };
    assert_eq!(error.code(), "FAULT_INJECTED");
    let mut reopened = Cas::new(ROOT, contents).unwrap();
    assert_eq!(reopened.get("snapshot/v1", digest).unwrap(), b"payload");
}

#[test]
fn startup_scan_covers_quarantine_and_staging_bytes() {
    let guarded = || {
        let mut redactor = Redactor::default();
        redactor.register_secret("left-secret").unwrap();
        redactor
    };
    let mut contents = StoreContents::empty();
    contents.staging.push(b"partial left-secret".to_vec());
    assert!(Cas::new_with_redactor(ROOT, guarded(), contents).is_err());
    let mut contents = StoreContents::empty();
    contents.quarantined.push(StoredObject {
        digest: digest_for("snapshot/v1", b"x"),
        bytes: b"left-secret".to_vec(),
    });
    assert_eq!(
        Cas::new_with_redactor(ROOT, guarded(), contents).err().unwrap().to_string(),
        "integrity error: configured secret detected in persisted bytes at CAS-owned bytes"
    );
}

#[test]
fn startup_walk_skips_the_lock_and_refuses_links_and_special_entries() {
    assert!(matches!(
        scan_entry_step("locks", "repository.lock", "/r/locks/repository.lock", EntryKind::File),
        ScanStep::Skip
    ));
    assert!(matches!(
        scan_entry_step("objects", "repository.lock", "/r/objects/repository.lock", EntryKind::File),
        ScanStep::CheckBytes
    ));
    assert!(matches!(
        scan_entry_step("objects", "ab", "/r/objects/ab", EntryKind::Directory),
        ScanStep::Descend
    ));
    match scan_entry_step("objects", "link", "/r/objects/link", EntryKind::Link) {
        ScanStep::Refuse(PongError::Integrity(message)) => {
            assert_eq!(message, "CAS tree contains a symlink or reparse point")
        }
        _ => panic!("a link must refuse the tree"),
    }
    match scan_entry_step("staging", "fifo", "/r/staging/fifo", EntryKind::Other) {
        ScanStep::Refuse(PongError::Integrity(message)) => {
            assert_eq!(message, "CAS tree contains a non-regular entry: /r/staging/fifo")
        }
        _ => panic!("a special entry must refuse the tree"),
    }
}

#[test]
fn parsed_digests_print_as_the_input_in_lower_case() {
    let digest = digest_for("snapshot/v1", b"hello");
    let upper = digest.to_hex().to_ascii_uppercase();
    let parsed = Digest::from_hex(&upper).unwrap();
    assert_eq!(parsed, digest);
    assert_eq!(parsed.to_hex(), upper.to_ascii_lowercase());
}
