use pong_core::control::{
    before_state_from_json, publication_operation, publication_result, version_publication_for, validate_publish_lease,
    validate_publish_parent, validate_publish_request, version_head_step, LeaseView,
    PublicationBeforeState, PublishVersionRequest, StateRecords, StateView, VersionHeadStep,
};
use pong_core::canonical::canonical_bytes;
use pong_core::error::PongError;
use pong_core::records::{
    AgentIdentity, ExecutionRecord, LeaseRecord, LeaseToken, SnapshotRecord, TaskRecord,
    VersionRecord, WorkspaceRecord,
};

fn request() -> PublishVersionRequest {
    PublishVersionRequest {
        workspace_id: "ws-1".to_string(),
        lease: LeaseToken {
            workspace_id: "ws-1".to_string(),
            agent_id: "agent-1".to_string(),
            epoch: 3,
            expires_at_ms: 5_000,
        },
        expected_workspace_revision: 4,
        now_ms: 1_000,
        created_at: "2026-01-01T00:00:00Z".to_string(),
        operation_id: "op-1".to_string(),
        request_id: "req-1".to_string(),
        session_id: None,
        tool: Some("pong".to_string()),
        parent_version_id: None,
        update_version_head: true,
    }
}

fn workspace(revision: i64, version_head_id: Option<&str>) -> WorkspaceRecord {
    WorkspaceRecord {
        workspace_id: "ws-1".to_string(),
        project_id: "prj-1".to_string(),
        driver: "local".to_string(),
        locator: "/work".to_string(),
        branch_ref: None,
        head: None,
        version_head_id: version_head_id.map(|s| s.to_string()),
        environment_id: None,
        status: "active".to_string(),
        revision,
        created_at: "t0".to_string(),
        updated_at: "t0".to_string(),
    }
}

fn lease(agent: Option<&str>, epoch: i64, expires_at_ms: i64) -> LeaseRecord {
    LeaseRecord {
        workspace_id: "ws-1".to_string(),
        agent_id: agent.map(|s| s.to_string()),
        epoch,
        expires_at_ms,
        acquired_at_ms: 0,
    }
}

#[test]
fn publication_requests_are_checked_field_by_field() {
    assert!(validate_publish_request(&request()).is_ok());
    let mut blank = request();
    blank.request_id = "  ".to_string();
    assert_eq!(
        validate_publish_request(&blank).unwrap_err().to_string(),
        "invalid input: request id must not be empty"
    );
    let mut negative = request();
    negative.expected_workspace_revision = -1;
    assert!(matches!(
        validate_publish_request(&negative),
        Err(PongError::InvalidInput(_))
    ));
}

#[test]
fn only_the_current_unexpired_lease_may_publish() {
    let r = request();
    assert!(validate_publish_lease(&r, &Some(lease(Some("agent-1"), 3, 5_000))).is_ok());
    assert_eq!(
        validate_publish_lease(&r, &None).unwrap_err().to_string(),
        "conflict: workspace lease is missing"
    );
    for stale in [
        lease(Some("agent-2"), 3, 5_000),
        lease(Some("agent-1"), 4, 5_000),
        lease(Some("agent-1"), 3, 1_000),
        lease(None, 3, 5_000),
    ] {
        assert_eq!(
            validate_publish_lease(&r, &Some(stale)).unwrap_err().to_string(),
            "conflict: workspace lease is stale or expired"
        );
    }
}

#[test]
fn a_parent_version_must_share_the_workspace_scope() {
    let ws = workspace(4, None);
    let parent = VersionRecord {
        version_id: "ver-0".to_string(),
        workspace_id: "ws-1".to_string(),
        project_id: "prj-1".to_string(),
        snapshot_id: "snap-0".to_string(),
        creation_operation_id: "op-0".to_string(),
        environment_id: None,
        created_at: "t0".to_string(),
        parent_version_id: None,
    };
    let named = Some("ver-0".to_string());
    assert!(validate_publish_parent(&ws, &None, &None).is_ok());
    assert!(validate_publish_parent(&ws, &named, &Some(parent.clone())).is_ok());
    assert!(matches!(
        validate_publish_parent(&ws, &named, &None),
        Err(PongError::NotFound(_))
    ));
    let mut other = parent;
    other.project_id = "prj-2".to_string();
    assert!(matches!(
        validate_publish_parent(&ws, &named, &Some(other)),
        Err(PongError::Conflict(_))
    ));
}

#[test]
fn the_version_head_moves_only_from_the_recorded_revision() {
    let before = PublicationBeforeState {
        workspace_revision: 4,
        workspace_head: None,
        version_head_id: None,
    };
    assert_eq!(
        version_head_step(&workspace(5, None), "ver-1", &before, 5, true).unwrap(),
        VersionHeadStep::Select
    );
    assert_eq!(
        version_head_step(&workspace(5, None), "ver-1", &before, 5, false).unwrap(),
        VersionHeadStep::Keep
    );
    assert_eq!(
        version_head_step(&workspace(6, Some("ver-1")), "ver-1", &before, 5, true).unwrap(),
        VersionHeadStep::Keep
    );
    assert_eq!(
        version_head_step(&workspace(7, None), "ver-1", &before, 5, true)
            .unwrap_err()
            .to_string(),
        "conflict: workspace revision is stale"
    );
    assert!(matches!(
        version_head_step(&workspace(7, Some("ver-1")), "ver-1", &before, i64::MAX, true),
        Err(PongError::ResourceExhausted(_))
    ));
}

#[test]
fn a_lease_view_is_active_until_it_expires() {
    let view = LeaseView::from_record(lease(Some("agent-1"), 3, 5_000), 4_999);
    assert!(view.active);
    assert!(!LeaseView::from_record(lease(Some("agent-1"), 3, 5_000), 5_000).active);
    assert!(!LeaseView::from_record(lease(None, 3, 5_000), 0).active);
}

#[test]
fn a_recorded_before_state_reads_back_unchanged() {
    let state = PublicationBeforeState {
        workspace_revision: 4,
        workspace_head: Some("sha256:abc".to_string()),
        version_head_id: None,
    };
    let value = state.to_value();
    assert_eq!(before_state_from_json(&value), Some(state.clone()));
    assert_eq!(
        String::from_utf8(canonical_bytes(&value).unwrap()).unwrap(),
        "{\"version_head_id\":null,\"workspace_head\":\"sha256:abc\",\"workspace_revision\":4}"
    );
}

#[test]
fn the_publication_envelope_names_the_snapshot_and_parent() {
    let mut r = request();
    r.parent_version_id = Some("ver-0".to_string());
    let ws = workspace(4, None);
    let snapshot = SnapshotRecord {
        snapshot_id: "snap-1".to_string(),
        root_digest: "sha256:abc".to_string(),
        workspace_id: "ws-1".to_string(),
        project_id: "prj-1".to_string(),
        environment_id: None,
        file_count: 1,
        total_bytes: 3,
        created_at: "t1".to_string(),
    };
    let before = PublicationBeforeState::from_workspace(&ws);
    let envelope = publication_operation(&r, &ws, &snapshot, &before).unwrap();
    assert_eq!(envelope.action, "version.create");
    assert_eq!(envelope.session_id, "agent-control");
    assert_eq!(envelope.tool, "pong");
    assert_eq!(envelope.input_refs.len(), 2);
    assert_eq!(envelope.input_refs[0].reference, "snap-1");
    assert_eq!(envelope.input_refs[1].kind, "version");
    assert_eq!(envelope.schema_version, "0.1");
    assert_eq!(
        String::from_utf8(canonical_bytes(envelope.resource.as_ref().unwrap()).unwrap()).unwrap(),
        "{\"expected_workspace_revision\":4,\"update_version_head\":true,\"workspace_id\":\"ws-1\"}"
    );
    assert_eq!(
        before_state_from_json(envelope.before_state.as_ref().unwrap()),
        Some(before)
    );
}

#[test]
fn state_is_assembled_from_the_execution_rows() {
    let execution = ExecutionRecord {
        execution_id: "exe-1".to_string(),
        task_id: "tsk-1".to_string(),
        agent_id: "agent-1".to_string(),
        project_id: "prj-1".to_string(),
        parent_execution_id: None,
        workspace_id: Some("ws-1".to_string()),
        base_version_id: None,
        current_version_id: None,
        state: "running".to_string(),
        outcome: None,
        revision: 1,
        created_at: "t0".to_string(),
        updated_at: "t0".to_string(),
    };
    let task = TaskRecord {
        task_id: "tsk-1".to_string(),
        project_id: "prj-1".to_string(),
        goal: "ship".to_string(),
        context_ref: None,
        state: "open".to_string(),
        revision: 0,
        created_at: "t0".to_string(),
        updated_at: "t0".to_string(),
    };
    let agent = AgentIdentity {
        agent_id: "agent-1".to_string(),
        provider: "test".to_string(),
        display_name: None,
        created_at: "t0".to_string(),
    };
    let records = StateRecords {
        execution: Some(execution.clone()),
        task: Some(task),
        agent: None,
        workspace: Some(workspace(4, None)),
        lease: Some(lease(Some("agent-1"), 3, 5_000)),
        base_version: None,
        current_version: None,
        checkpoints: Vec::new(),
        handoffs: Vec::new(),
        resume: None,
    };
    assert_eq!(
        StateView::from_records(records.clone(), 1_000).unwrap_err().to_string(),
        "integrity error: execution agent is missing"
    );
    let mut complete = records.clone();
    complete.agent = Some(agent);
    let view = StateView::from_records(complete, 1_000).unwrap();
    assert_eq!(view.execution, execution);
    assert!(view.lease.unwrap().active);
    assert_eq!(view.workspace.unwrap().revision, 4);
    let mut missing = records;
    missing.execution = None;
    assert!(matches!(
        StateView::from_records(missing, 0),
        Err(PongError::NotFound(_))
    ));
}

#[test]
fn publication_builds_the_version_row_and_its_answer() {
    let mut r = request();
    r.parent_version_id = Some("ver-0".to_string());
    let ws = workspace(4, None);
    let snapshot = SnapshotRecord {
        snapshot_id: "snap-1".to_string(),
        root_digest: "sha256:abc".to_string(),
        workspace_id: ws.workspace_id.clone(),
        project_id: ws.project_id.clone(),
        environment_id: None,
        file_count: 1,
        total_bytes: 3,
        created_at: "t1".to_string(),
    };
    let row = version_publication_for(&r, &ws, &snapshot);
    assert_eq!(row.snapshot_id, "snap-1");
    assert_eq!(row.creation_operation_id, r.operation_id);
    assert_eq!(row.parent_version_id.as_deref(), Some("ver-0"));
    assert_eq!(row.project_id, ws.project_id);
    let version = VersionRecord {
        version_id: "ver-1".to_string(),
        workspace_id: row.workspace_id.clone(),
        project_id: row.project_id.clone(),
        snapshot_id: row.snapshot_id.clone(),
        creation_operation_id: row.creation_operation_id.clone(),
        environment_id: None,
        created_at: row.created_at.clone(),
        parent_version_id: row.parent_version_id.clone(),
    };
    let answer = publication_result(snapshot.clone(), version.clone(), ws.clone());
    assert_eq!(answer.snapshot.snapshot_id, snapshot.snapshot_id);
    assert_eq!(answer.version, version);
    assert_eq!(answer.workspace.revision, 4);
}
