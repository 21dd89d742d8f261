use pong_core::cas::digest_hex;
use pong_core::error::{HostPlatform, IoErrorKind, IoFailure, PongError};
use pong_core::path::EntryKind;
use pong_core::cas::ScanStep;
use pong_core::repository::{
    migration_step, ExistingTarget, MigrationAction, MigrationEvent, MigrationPhase, MigrationState,
    open_step, OpenAction, OpenEvent, OpenPhase, OpenState,    active_migration_outcome,    check_concurrent_marker, check_existing_directory, check_metadata_file, check_owned_root,
    check_project_root, check_root_document_present, directory_step, owned_entry_step,
    DirectoryStep, already_active_outcome, byte_digest, check_generation_metadata, check_metadata_format, check_existing_target, check_journal,
    check_selector_for_spec, check_selector_manifest, finalize_journal, generation_manifest_for,
    is_sha256_digest, lock_error, migration_journal_for, selector_for, temporary_generation_name,
    plan_digest, same_marker, source_database_digest, validate_marker, validate_migration_spec, validate_path_component,
    validate_selector, MigrationFailpoint, MigrationFailpoints, MigrationJournal, MigrationSpec,
    RepositoryGenerationManifest, RepositoryLayout, RepositoryMarker, RepositorySelector,
    REPOSITORY_FORMAT, REPOSITORY_SELECTOR_VERSION,
};
use sha2::Digest as Sha2Digest;

fn selector(migration_id: &str, generation: &str) -> RepositorySelector {
    RepositorySelector {
        marker_version: REPOSITORY_SELECTOR_VERSION,
        repository_format: "0.2".to_string(),
        schema_version: "0.2".to_string(),
        storage_driver: "cas+sqlite".to_string(),
        active_generation: generation.to_string(),
        migration_id: migration_id.to_string(),
        generation_manifest_digest: format!("sha256:{}", "a".repeat(64)),
    }
}

fn manifest(migration_id: &str, generation: &str) -> RepositoryGenerationManifest {
    RepositoryGenerationManifest {
        manifest_version: 1,
        generation_id: generation.to_string(),
        migration_id: migration_id.to_string(),
        repository_format: "0.2".to_string(),
        schema_version: "0.2".to_string(),
        storage_driver: "cas+sqlite".to_string(),
        source_marker_digest: format!("sha256:{}", "b".repeat(64)),
        metadata_digest: format!("sha256:{}", "c".repeat(64)),
        metadata_size: 4096,
        redaction_profile_id: "default".to_string(),
        redaction_profile_version: "0.1".to_string(),
    }
}

#[test]
fn unsupported_marker_fails_before_metadata_open() {
    let mut marker = RepositoryMarker::default();
    assert!(validate_marker(&marker).is_ok());
    marker.repository_format = "9.0".to_string();
    let error = validate_marker(&marker).expect_err("format mismatch");
    assert!(matches!(error, PongError::Unsupported(_)));
    assert_eq!(
        error.to_string(),
        "unsupported: repository format 9.0 is unsupported; expected 0.1"
    );
    assert!(!same_marker(&marker, &RepositoryMarker::default()));
    assert!(same_marker(&RepositoryMarker::default(), &RepositoryMarker::default()));
}

#[test]
fn marker_version_is_checked_first() {
    let mut marker = RepositoryMarker::default();
    marker.marker_version = 7;
    marker.storage_driver = "other".to_string();
    assert_eq!(
        validate_marker(&marker).unwrap_err().to_string(),
        "unsupported: repository marker version 7 is unsupported; expected 1"
    );
}

#[test]
fn layout_paths_hang_off_the_pong_directory() {
    let layout = RepositoryLayout::from_root("/work/project");
    assert_eq!(layout.pong_dir(), "/work/project/.pong");
    assert_eq!(layout.marker_path(), "/work/project/.pong/repository.json");
    assert_eq!(layout.metadata_path(), "/work/project/.pong/metadata.sqlite");
    assert_eq!(layout.objects_dir(), "/work/project/.pong/objects");
    assert_eq!(layout.staging_dir(), "/work/project/.pong/staging");
    assert_eq!(layout.quarantine_dir(), "/work/project/.pong/quarantine");
    assert_eq!(
        layout.generation_manifest_path("gen-2"),
        "/work/project/.pong/generations/gen-2/generation.json"
    );
}

#[test]
fn path_components_and_migration_specs_are_checked() {
    assert!(validate_path_component("gen-2_a.b", "generation id").is_ok());
    assert!(validate_path_component("", "generation id").is_err());
    assert!(validate_path_component("..", "generation id").is_err());
    assert!(validate_path_component("a/b", "generation id").is_err());
    assert!(validate_migration_spec(&MigrationSpec::new("mig-1", "gen-2")).is_ok());
    assert!(validate_migration_spec(&MigrationSpec::new("mig 1", "gen-2")).is_err());
}

#[test]
fn byte_digest_is_the_domain_separated_sha256() {
    let expected = format!(
        "sha256:{}",
        hex::encode(sha2::Sha256::digest(b"pong.repository.bytes\0abc"))
    );
    assert_eq!(byte_digest(b"abc"), expected);
    assert_eq!(
        byte_digest(b"abc"),
        format!("sha256:{}", digest_hex("pong.repository.bytes", b"abc"))
    );
    assert!(is_sha256_digest(&expected));
    assert!(!is_sha256_digest("sha256:abc"));
    assert!(!is_sha256_digest(&expected.to_uppercase()));
}

#[test]
fn plan_digest_covers_the_canonical_plan() {
    let spec = MigrationSpec::new("mig-1", "gen-2");
    let text = format!(
        "{{\"migration_id\":\"mig-1\",\"source_format\":\"{}\",\"source_metadata_digest\":\"m\",\"source_root_digest\":\"r\",\"target_format\":\"0.2\",\"target_generation_id\":\"gen-2\"}}",
        REPOSITORY_FORMAT
    );
    assert_eq!(plan_digest(&spec, "r", "m").unwrap(), byte_digest(text.as_bytes()));
    assert_ne!(plan_digest(&spec, "r", "m").unwrap(), plan_digest(&spec, "m", "r").unwrap());
}

#[test]
fn selector_and_manifest_must_agree() {
    let s = selector("mig-1", "gen-2");
    assert!(validate_selector(&s).is_ok());
    assert!(check_selector_manifest(&s, &manifest("mig-1", "gen-2")).is_ok());
    let error = check_selector_manifest(&s, &manifest("mig-1", "gen-3")).unwrap_err();
    assert_eq!(error.code(), "RECOVERY_REQUIRED");
    let mut old = s.clone();
    old.marker_version = 1;
    assert!(matches!(validate_selector(&old), Err(PongError::Unsupported(_))));
}

#[test]
fn journal_is_checked_against_its_plan_and_finalized_once() {
    let s = selector("mig-1", "gen-2");
    let m = manifest("mig-1", "gen-2");
    let spec = MigrationSpec::new("mig-1", "gen-2");
    let mut journal = MigrationJournal {
        journal_version: 1,
        migration_id: "mig-1".to_string(),
        source_generation_id: "legacy".to_string(),
        target_generation_id: "gen-2".to_string(),
        plan_digest: plan_digest(&spec, &m.source_marker_digest, "src-meta").unwrap(),
        source_root_digest: m.source_marker_digest.clone(),
        source_metadata_digest: "src-meta".to_string(),
        target_metadata_digest: Some(m.metadata_digest.clone()),
        selector_digest: None,
        status: "selector_published".to_string(),
        finalized_at: None,
    };
    assert!(check_journal(&journal, &s, &m).is_ok());
    assert!(finalize_journal(&mut journal, "sha256:sel"));
    assert_eq!(journal.status, "finalized");
    assert_eq!(journal.finalized_at.as_deref(), Some("selector-recovery"));
    assert!(!finalize_journal(&mut journal, "sha256:sel"));
    journal.plan_digest = "sha256:forged".to_string();
    assert_eq!(
        check_journal(&journal, &s, &m).unwrap_err().code(),
        "RECOVERY_REQUIRED"
    );
}

#[test]
fn migration_failpoints_fire_once() {
    let mut failpoints = MigrationFailpoints::once(MigrationFailpoint::Preflight);
    assert_eq!(failpoints.take_if(MigrationFailpoint::Preflight), Some(MigrationFailpoint::Preflight));
    assert_eq!(failpoints.take_if(MigrationFailpoint::Preflight), None);
}

#[test]
fn a_migration_resumes_only_its_own_unchanged_plan() {
    let spec = MigrationSpec::new("mig-1", "gen-2");
    let (journal, write) = migration_journal_for(None, &spec, "sha256:p", "sha256:r", "sha256:m").unwrap();
    assert!(write);
    assert_eq!(journal.status, "preflight");
    assert_eq!(journal.source_generation_id, "legacy-v0.1");
    let (again, write) =
        migration_journal_for(Some(journal.clone()), &spec, "sha256:p", "sha256:r", "sha256:m").unwrap();
    assert!(!write);
    assert_eq!(again, journal);
    assert_eq!(
        migration_journal_for(Some(journal.clone()), &spec, "sha256:q", "sha256:r", "sha256:m")
            .unwrap_err()
            .to_string(),
        "conflict: migration id is already bound to a different plan"
    );
    assert_eq!(
        migration_journal_for(Some(journal.clone()), &spec, "sha256:p", "sha256:r", "sha256:x")
            .unwrap_err()
            .to_string(),
        "conflict: legacy source changed since the migration was prepared"
    );
    let mut committed = journal;
    committed.status = "selector_committed".to_string();
    assert_eq!(
        migration_journal_for(Some(committed), &spec, "sha256:p", "sha256:r", "sha256:m")
            .unwrap_err()
            .code(),
        "RECOVERY_REQUIRED"
    );
}

#[test]
fn an_active_generation_answers_only_its_own_migration() {
    let spec = MigrationSpec::new("mig-1", "gen-2");
    let s = selector_for(&spec, &format!("sha256:{}", "a".repeat(64)));
    assert!(validate_selector(&s).is_ok());
    assert!(check_selector_for_spec(&s, &spec).is_ok());
    assert!(matches!(
        check_selector_for_spec(&s, &MigrationSpec::new("mig-2", "gen-2")),
        Err(PongError::Conflict(_))
    ));
    let journal = MigrationJournal {
        journal_version: 1,
        migration_id: "mig-1".to_string(),
        source_generation_id: "legacy-v0.1".to_string(),
        target_generation_id: "gen-2".to_string(),
        plan_digest: plan_digest(&spec, "sha256:r", "sha256:m").unwrap(),
        source_root_digest: "sha256:r".to_string(),
        source_metadata_digest: "sha256:m".to_string(),
        target_metadata_digest: None,
        selector_digest: None,
        status: "finalized".to_string(),
        finalized_at: None,
    };
    let outcome = already_active_outcome(&spec, &journal, &s, "sha256:sel").unwrap();
    assert!(outcome.already_active);
    assert_eq!(outcome.selector_digest, "sha256:sel");
    let other = MigrationSpec::new("mig-1", "gen-3");
    assert!(matches!(
        already_active_outcome(&other, &journal, &s, "sha256:sel"),
        Err(PongError::Conflict(_))
    ));
}

#[test]
fn generation_artifacts_carry_the_migration_identity() {
    let spec = MigrationSpec::new("mig-1", "gen-2");
    assert_eq!(temporary_generation_name(&spec), ".gen-2.mig-1.tmp");
    let m = generation_manifest_for(&spec, "sha256:r", &format!("sha256:{}", "c".repeat(64)), 10, "default", "0.1");
    assert_eq!(m.repository_format, "0.2");
    assert_eq!(m.storage_driver, "cas+sqlite");
    assert!(check_existing_target(&m, &spec).is_ok());
    assert!(matches!(
        check_existing_target(&m, &MigrationSpec::new("mig-9", "gen-2")),
        Err(PongError::Conflict(_))
    ));
}

#[test]
fn opened_metadata_must_match_marker_and_manifest() {
    assert!(check_metadata_format("0.1", "0.1").is_ok());
    assert_eq!(
        check_metadata_format("0.1", "0.2").unwrap_err().to_string(),
        "integrity error: repository marker format 0.1 disagrees with metadata format 0.2"
    );
    let m = manifest("mig-1", "gen-2");
    let identity = Some(("gen-2".to_string(), "mig-1".to_string()));
    assert!(check_generation_metadata(&m, &identity, "default", "0.1").is_ok());
    assert!(check_generation_metadata(&m, &None, "default", "0.1").is_err());
    assert_eq!(
        check_generation_metadata(&m, &identity, "other", "0.1").unwrap_err().to_string(),
        "integrity error: active generation redaction profile does not match its manifest"
    );
}

#[test]
fn a_source_database_digest_frames_each_present_file() {
    let parts = vec![
        (String::new(), b"main".to_vec()),
        ("-wal".to_string(), b"log".to_vec()),
    ];
    let mut framed = Vec::new();
    for (suffix, contents) in &parts {
        framed.extend_from_slice(&(suffix.len() as u64).to_le_bytes());
        framed.extend_from_slice(suffix.as_bytes());
        framed.extend_from_slice(&(contents.len() as u64).to_le_bytes());
        framed.extend_from_slice(contents);
    }
    assert_eq!(source_database_digest(&parts), byte_digest(&framed));
    assert_ne!(
        source_database_digest(&parts),
        source_database_digest(&vec![(String::new(), b"mainlog".to_vec())])
    );
    assert_eq!(source_database_digest(&Vec::new()), byte_digest(b""));
}

#[test]
fn a_held_repository_lock_is_a_conflict() {
    let busy = IoFailure { kind: IoErrorKind::WouldBlock, raw_os_error: Some(11), message: "busy".to_string() };
    assert_eq!(
        lock_error(busy, HostPlatform::Linux).to_string(),
        "conflict: repository lock is busy; migration requires an offline repository"
    );
    let other = IoFailure { kind: IoErrorKind::NotFound, raw_os_error: Some(2), message: "gone".to_string() };
    assert_eq!(lock_error(other, HostPlatform::Linux).code(), "IO_ERROR");
}

#[test]
fn missing_marker_is_not_treated_as_an_initialized_repository() {
    let error = check_root_document_present(None).expect_err("missing marker");
    assert!(matches!(error, PongError::NotFound(_)));
    assert_eq!(error.to_string(), "not found: repository selector does not exist");
    assert!(check_root_document_present(Some(EntryKind::Directory)).is_err());
    assert!(check_root_document_present(Some(EntryKind::File)).is_ok());
}

#[test]
fn startup_does_not_recreate_missing_cas_directories() {
    let layout = RepositoryLayout::from_root("/srv/project");
    let objects = layout.objects_dir().to_string();
    let error = check_existing_directory(&objects, None).expect_err("missing CAS directory");
    assert!(matches!(error, PongError::Integrity(_)));
    assert_eq!(
        error.to_string(),
        "integrity error: repository CAS directory is missing: /srv/project/.pong/objects"
    );
    assert!(check_existing_directory(&objects, Some(EntryKind::Directory)).is_ok());
    assert!(matches!(directory_step(&objects, None), DirectoryStep::Create));
}

#[test]
fn repository_directories_refuse_links_and_files() {
    assert!(matches!(directory_step("/p/.pong", Some(EntryKind::Directory)), DirectoryStep::Ready));
    match directory_step("/p/.pong", Some(EntryKind::Link)) {
        DirectoryStep::Refuse(error) => assert_eq!(
            error.to_string(),
            "integrity error: repository directory is a symlink or reparse point"
        ),
        _ => panic!("a link must be refused"),
    }
    match directory_step("/p/.pong", Some(EntryKind::File)) {
        DirectoryStep::Refuse(error) => assert_eq!(
            error.to_string(),
            "integrity error: repository path is not a directory: /p/.pong"
        ),
        _ => panic!("a file must be refused"),
    }
    assert!(check_existing_directory("/p/.pong/cas/staging", Some(EntryKind::Other)).is_err());
}

#[test]
fn project_root_must_be_an_existing_directory() {
    assert!(check_project_root("/p", Some(EntryKind::Directory)).is_ok());
    let missing = check_project_root("/p", None).unwrap_err();
    assert_eq!(missing.code(), "NOT_FOUND");
    assert_eq!(missing.to_string(), "not found: project root does not exist: /p");
    let linked = check_project_root("/p", Some(EntryKind::Link)).unwrap_err();
    assert_eq!(linked.code(), "INVALID_INPUT");
    assert_eq!(linked.to_string(), "invalid input: project root is not a directory: /p");
}

#[test]
fn owned_storage_scan_skips_the_lock_and_refuses_special_entries() {
    assert!(check_owned_root(EntryKind::Directory).is_ok());
    assert_eq!(
        check_owned_root(EntryKind::Link).unwrap_err().to_string(),
        "integrity error: repository-owned storage root is not a directory"
    );
    assert!(matches!(owned_entry_step("locks", "repository.lock", EntryKind::File), ScanStep::Skip));
    assert!(matches!(owned_entry_step("cas", "repository.lock", EntryKind::File), ScanStep::CheckBytes));
    assert!(matches!(owned_entry_step("cas", "objects", EntryKind::Directory), ScanStep::Descend));
    match owned_entry_step("cas", "link", EntryKind::Link) {
        ScanStep::Refuse(error) => assert_eq!(
            error.to_string(),
            "integrity error: repository-owned storage contains a symlink or reparse point"
        ),
        _ => panic!("a link must be refused"),
    }
    match owned_entry_step("cas", "fifo", EntryKind::Other) {
        ScanStep::Refuse(error) => assert_eq!(
            error.to_string(),
            "integrity error: repository-owned storage contains a non-regular entry"
        ),
        _ => panic!("a special entry must be refused"),
    }
}

#[test]
fn metadata_file_must_be_regular_and_markers_must_agree() {
    assert!(check_metadata_file("/p/.pong/metadata.sqlite", Some(EntryKind::File)).is_ok());
    assert_eq!(
        check_metadata_file("/p/.pong/metadata.sqlite", None).unwrap_err().to_string(),
        "integrity error: repository metadata file is missing or not a regular file: /p/.pong/metadata.sqlite"
    );
    let marker = RepositoryMarker::default();
    assert!(check_concurrent_marker(&marker, &RepositoryMarker::default()).is_ok());
    let mut other = RepositoryMarker::default();
    other.schema_version = "0.9".to_string();
    let error = check_concurrent_marker(&other, &marker).unwrap_err();
    assert_eq!(error.code(), "CONFLICT");
    assert_eq!(
        error.to_string(),
        "conflict: repository marker was concurrently initialized with incompatible values"
    );
}

#[test]
fn rerunning_an_active_migration_answers_already_active() {
    let spec = MigrationSpec::new("mig-1", "gen-2");
    let root = "sha256:".to_string() + &"b".repeat(64);
    let meta = "sha256:".to_string() + &"c".repeat(64);
    let journal = MigrationJournal {
        journal_version: 1,
        migration_id: "mig-1".to_string(),
        source_generation_id: "legacy-v0.1".to_string(),
        target_generation_id: "gen-2".to_string(),
        plan_digest: plan_digest(&spec, &root, &meta).unwrap(),
        source_root_digest: root.clone(),
        source_metadata_digest: meta.clone(),
        target_metadata_digest: None,
        selector_digest: None,
        status: "finalized".to_string(),
        finalized_at: Some("migration-complete".to_string()),
    };
    let active = selector("mig-1", "gen-2");
    let outcome = active_migration_outcome(&spec, &active, &journal, "sha256:sel").unwrap();
    assert!(outcome.already_active);
    assert_eq!(outcome.plan_digest, journal.plan_digest);
    assert_eq!(outcome.selector_digest, "sha256:sel");
    assert_eq!(outcome.target_generation_id, "gen-2");
    let other = MigrationSpec::new("mig-2", "gen-3");
    assert!(matches!(
        active_migration_outcome(&other, &active, &journal, "sha256:sel"),
        Err(PongError::Conflict(_))
    ));
}

fn start() -> OpenState {
    OpenState { phase: OpenPhase::Start, marker_format: String::new(), generation: None }
}

#[test]
fn opening_runs_its_checks_in_order() {
    let (s, a) = open_step(start(), OpenEvent::RootRead { marker_format: "0.1".into(), generation: None }).unwrap();
    assert_eq!(a, OpenAction::ScanOwnedBytes);
    let (s, a) = open_step(s, OpenEvent::OwnedBytesScanned).unwrap();
    assert_eq!(a, OpenAction::CheckLayout);
    let missing = open_step(
        OpenState { phase: OpenPhase::CheckingLayout, marker_format: "0.1".into(), generation: None },
        OpenEvent::LayoutChecked { metadata_path: "/p/.pong/metadata.sqlite".into(), metadata_file: None },
    )
    .unwrap_err();
    assert_eq!(missing.code(), "INTEGRITY_ERROR");
    let (s, a) = open_step(
        s,
        OpenEvent::LayoutChecked {
            metadata_path: "/p/.pong/metadata.sqlite".into(),
            metadata_file: Some(EntryKind::File),
        },
    )
    .unwrap();
    assert_eq!(a, OpenAction::OpenMetadata);
    let disagree = open_step(
        OpenState { phase: OpenPhase::OpeningMetadata, marker_format: "0.1".into(), generation: None },
        OpenEvent::MetadataOpened(Ok("0.2".into())),
    )
    .unwrap_err();
    assert_eq!(
        disagree.to_string(),
        "integrity error: repository marker format 0.1 disagrees with metadata format 0.2"
    );
    let legacy_sqlite = open_step(
        OpenState { phase: OpenPhase::OpeningMetadata, marker_format: "0.1".into(), generation: None },
        OpenEvent::MetadataOpened(Err(PongError::Sqlite("locked".into()))),
    )
    .unwrap_err();
    assert_eq!(legacy_sqlite.code(), "STORAGE_ERROR");
    let (s, a) = open_step(s, OpenEvent::MetadataOpened(Ok("0.1".into()))).unwrap();
    assert_eq!(a, OpenAction::OpenStore);
    let (s, a) = open_step(s, OpenEvent::StoreOpened).unwrap();
    assert_eq!(a, OpenAction::Rescan);
    let (s, a) = open_step(s, OpenEvent::Rescanned).unwrap();
    assert_eq!(a, OpenAction::Recover);
    let (s, a) = open_step(s, OpenEvent::Recovered(Ok(()))).unwrap();
    assert_eq!((s.phase, a), (OpenPhase::Open, OpenAction::Finish));
    assert!(open_step(s, OpenEvent::Rescanned).is_err());
}

#[test]
fn a_generation_storage_failure_opens_as_an_integrity_failure() {
    let manifest = generation_manifest_for(
        &MigrationSpec::new("mig-1", "gen-2"),
        "sha256:root",
        "sha256:meta",
        10,
        "default",
        "0.1",
    );
    let state = OpenState {
        phase: OpenPhase::OpeningMetadata,
        marker_format: "0.2".into(),
        generation: Some(manifest),
    };
    let error = open_step(state, OpenEvent::MetadataOpened(Err(PongError::Sqlite("corrupt".into())))).unwrap_err();
    assert_eq!(
        error.to_string(),
        "integrity error: active generation SQLite database failed to open or verify"
    );
}

fn fresh_migration(failpoints: MigrationFailpoints) -> MigrationState {
    MigrationState {
        phase: MigrationPhase::Start,
        failpoints,
        journal: None,
        source_root_digest: String::new(),
        plan_digest: String::new(),
        manifest_digest: String::new(),
        selector_digest: String::new(),
    }
}

fn source_read() -> MigrationEvent {
    MigrationEvent::SourceRead {
        source_root_digest: "sha256:root".to_string(),
        metadata_file: Some(EntryKind::File),
        source_format: REPOSITORY_FORMAT.to_string(),
        source_parts: vec![("".to_string(), b"db".to_vec())],
        journal: None,
    }
}

#[test]
fn a_migration_runs_its_boundaries_in_order() {
    let spec = MigrationSpec::new("mig-1", "gen-2");
    let (s, a) = migration_step(&spec, fresh_migration(MigrationFailpoints::disabled()), MigrationEvent::LegacyRoot).unwrap();
    assert!(matches!(a, MigrationAction::ReadSource));
    let (s, a) = migration_step(&spec, s, source_read()).unwrap();
    match a {
        MigrationAction::PrepareTarget { write_journal, temporary } => {
            assert!(write_journal);
            assert_eq!(temporary, ".gen-2.mig-1.tmp");
        }
        other => panic!("unexpected {:?}", other),
    }
    let metadata = source_database_digest(&vec![("".to_string(), b"db".to_vec())]);
    assert_eq!(s.plan_digest, plan_digest(&spec, "sha256:root", &metadata).unwrap());
    assert_eq!(s.journal.as_ref().unwrap().status, "preflight");
    let (s, a) = migration_step(&spec, s, MigrationEvent::TargetProbed(Some(ExistingTarget::Manifest(manifest("mig-1", "gen-2"))))).unwrap();
    assert!(matches!(a, MigrationAction::AllocateTarget { remove_existing: true }));
    let (s, a) = migration_step(&spec, s, MigrationEvent::TargetAllocated).unwrap();
    assert!(matches!(a, MigrationAction::Backup));
    let (s, a) = migration_step(&spec, s, MigrationEvent::BackedUp).unwrap();
    assert!(matches!(a, MigrationAction::RewriteTarget));
    let (s, a) = migration_step(&spec, s, MigrationEvent::Rewritten).unwrap();
    assert!(matches!(a, MigrationAction::VerifyTarget));
    let (s, a) = migration_step(&spec, s, MigrationEvent::TargetVerified {
        metadata_digest: "sha256:meta".to_string(),
        metadata_size: 4096,
        profile_id: "default".to_string(),
        profile_version: "1".to_string(),
    }).unwrap();
    match a {
        MigrationAction::PublishGeneration(m) => {
            assert_eq!(m.generation_id, "gen-2");
            assert_eq!(m.source_marker_digest, "sha256:root");
            assert_eq!(m.metadata_digest, "sha256:meta");
            assert_eq!(m.metadata_size, 4096);
        }
        other => panic!("unexpected {:?}", other),
    }
    assert_eq!(s.journal.as_ref().unwrap().status, "target_verified");
    let (s, a) = migration_step(&spec, s, MigrationEvent::GenerationPublished { manifest_digest: "sha256:man".to_string() }).unwrap();
    match a {
        MigrationAction::EncodeSelector(sel) => {
            assert_eq!(sel.active_generation, "gen-2");
            assert_eq!(sel.generation_manifest_digest, "sha256:man");
        }
        other => panic!("unexpected {:?}", other),
    }
    let (s, a) = migration_step(&spec, s, MigrationEvent::SelectorEncoded { selector_digest: "sha256:sel".to_string() }).unwrap();
    assert!(matches!(a, MigrationAction::ReplaceSelector));
    let (s, a) = migration_step(&spec, s, MigrationEvent::SelectorReplaced).unwrap();
    assert!(matches!(a, MigrationAction::SyncSelector));
    let (s, a) = migration_step(&spec, s, MigrationEvent::SelectorSynced).unwrap();
    assert!(matches!(a, MigrationAction::CommitJournal));
    assert_eq!(s.journal.as_ref().unwrap().status, "selector_committed");
    assert_eq!(s.journal.as_ref().unwrap().selector_digest.as_deref(), Some("sha256:sel"));
    let (s, a) = migration_step(&spec, s, MigrationEvent::JournalCommitted).unwrap();
    assert!(matches!(a, MigrationAction::FinalizeJournal));
    assert_eq!(s.journal.as_ref().unwrap().status, "finalized");
    let (s, a) = migration_step(&spec, s, MigrationEvent::JournalFinalized).unwrap();
    assert_eq!(s.phase, MigrationPhase::Done);
    match a {
        MigrationAction::Finish(o) => {
            assert!(!o.already_active);
            assert_eq!(o.selector_digest, "sha256:sel");
            assert_eq!(o.generation_manifest_digest, "sha256:man");
            assert_eq!(o.source_generation_id, "legacy-v0.1");
        }
        other => panic!("unexpected {:?}", other),
    }
}

#[test]
fn a_migration_stops_at_its_armed_boundary_and_refuses_events_out_of_order() {
    let spec = MigrationSpec::new("mig-1", "gen-2");
    let armed = MigrationFailpoints::once(MigrationFailpoint::Preflight);
    match migration_step(&spec, fresh_migration(armed), MigrationEvent::LegacyRoot) {
        Err(PongError::FaultInjected(m)) => assert_eq!(m, "migration_preflight"),
        other => panic!("unexpected {:?}", other),
    }
    match migration_step(&spec, fresh_migration(MigrationFailpoints::disabled()), MigrationEvent::BackedUp) {
        Err(PongError::Integrity(m)) => assert_eq!(m, "repository migration received an event out of order"),
        other => panic!("unexpected {:?}", other),
    }
    let (s, _) = migration_step(&spec, fresh_migration(MigrationFailpoints::disabled()), MigrationEvent::LegacyRoot).unwrap();
    let (s, _) = migration_step(&spec, s, source_read()).unwrap();
    match migration_step(&spec, s, MigrationEvent::TargetProbed(Some(ExistingTarget::Manifest(manifest("mig-9", "gen-2"))))) {
        Err(PongError::Conflict(m)) => assert_eq!(m, "target generation is already owned by another migration"),
        other => panic!("unexpected {:?}", other),
    }
    let wrong_format = MigrationEvent::SourceRead {
        source_root_digest: "sha256:root".to_string(),
        metadata_file: Some(EntryKind::File),
        source_format: "0.9".to_string(),
        source_parts: Vec::new(),
        journal: None,
    };
    let (s, _) = migration_step(&spec, fresh_migration(MigrationFailpoints::disabled()), MigrationEvent::LegacyRoot).unwrap();
    assert!(matches!(migration_step(&spec, s, wrong_format), Err(PongError::Unsupported(_))));
}
