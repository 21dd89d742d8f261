use pong_core::control::{LeaseView, WorkspaceView};
use pong_core::error::PongError;
use pong_core::protocol::{
    acquire_lease_step, binding_answer_outcome, check_envelope, dispatch_decision, handle_step,
    AcquireLeaseCommand, HandleStep, RenewLeaseCommand,
    CreateTaskCommand, DispatchReads, DispatchStep, ProtocolResult, ReleaseLeaseCommand,
    ExecutionRevisionCommand, execution_operation_envelope, hello_result,
    lease_already_released, operation_outcome, publish_request_for_command,
    PublishVersionCommand, StartOperationCommand,
    lease_resource_from_view, protocol_execution_transition_allowed, register_agent_request,
    require_execution_owner, require_execution_transition, require_execution_version_revisions,
    require_lease, require_workspace_revision, validate_operation_outcome_command,
    validate_request_header, EntityQuery, FinishOperationCommand, LeaseAuthority,
    OperationFailureResource, OperationTerminalStatus, ProtocolCall, ProtocolErrorCode,
    ProtocolFailure, ProtocolRequest, ProtocolResponse, ProtocolStatus, RegisterAgentCommand,
    WorkspaceBindingError, EXTERNAL_AGENT_PROTOCOL_VERSION,
};
use pong_core::records::{AgentIdentity, ExecutionRecord};

fn request(call: ProtocolCall) -> ProtocolRequest {
    ProtocolRequest {
        protocol_version: EXTERNAL_AGENT_PROTOCOL_VERSION.to_owned(),
        request_id: "req-1".to_owned(),
        caller_agent_id: Some("agent-1".to_owned()),
        issued_at: "2024-01-01T00:00:00Z".to_owned(),
        operation_id: None,
        call,
    }
}

fn execution(agent: &str, state: &str, revision: i64) -> ExecutionRecord {
    ExecutionRecord {
        execution_id: "exec-1".into(),
        task_id: "task-1".into(),
        agent_id: agent.into(),
        project_id: "project-1".into(),
        parent_execution_id: None,
        workspace_id: Some("ws-1".into()),
        base_version_id: None,
        current_version_id: None,
        state: state.into(),
        outcome: None,
        revision,
        created_at: "t0".into(),
        updated_at: "t0".into(),
    }
}

fn workspace(revision: i64) -> WorkspaceView {
    WorkspaceView {
        workspace_id: "ws-1".into(),
        project_id: "project-1".into(),
        driver: "local".into(),
        locator: "/work".into(),
        branch_ref: None,
        head: None,
        version_head_id: None,
        environment_id: None,
        status: "active".into(),
        revision,
        created_at: "t0".into(),
        updated_at: "t0".into(),
    }
}

fn lease(agent: Option<&str>, epoch: i64, active: bool) -> LeaseView {
    LeaseView {
        workspace_id: "ws-1".into(),
        agent_id: agent.map(str::to_owned),
        epoch,
        expires_at_ms: 5_000,
        acquired_at_ms: 1_000,
        active,
    }
}

fn authority(agent: &str, epoch: i64) -> LeaseAuthority {
    LeaseAuthority {
        workspace_id: "ws-1".into(),
        agent_id: agent.into(),
        epoch,
        expires_at_ms: 5_000,
    }
}

#[test]
fn invalid_envelope_answers_under_the_recovered_request_id() {
    let response = ProtocolResponse::invalid_envelope(Some("req-9".into()));
    assert_eq!(response.request_id, "req-9");
    assert_eq!(response.status, ProtocolStatus::Error);
    let error = response.error.unwrap();
    assert_eq!(error.code, ProtocolErrorCode::ValidationError);
    assert_eq!(error.message, "request envelope is invalid");
    let response = ProtocolResponse::invalid_envelope(None);
    assert_eq!(response.request_id, "unknown");
    assert_eq!(response.protocol_version, "1.0");
}

#[test]
fn empty_header_fields_are_named_in_order() {
    let mut blank = request(ProtocolCall::Hello);
    blank.request_id = "  ".into();
    let failure = validate_request_header(&blank).unwrap_err();
    assert_eq!(failure.message, "request_id must not be empty");
    let mut blank = request(ProtocolCall::Hello);
    blank.operation_id = Some("".into());
    let failure = validate_request_header(&blank).unwrap_err();
    assert_eq!(failure.message, "operation_id must not be empty");
    assert!(validate_request_header(&request(ProtocolCall::Hello)).is_ok());
}

#[test]
fn unsupported_protocol_version_is_refused_after_the_header() {
    let mut old = request(ProtocolCall::Hello);
    old.protocol_version = "0.9".into();
    let failure = check_envelope(&old).unwrap_err();
    assert_eq!(failure.code, ProtocolErrorCode::UnsupportedVersion);
    assert!(check_envelope(&request(ProtocolCall::Hello)).is_ok());
}

#[test]
fn hello_lists_every_command_and_query() {
    let hello = hello_result();
    assert_eq!(hello.protocol_versions, vec!["1.0".to_owned()]);
    assert_eq!(hello.commands.len(), 20);
    assert_eq!(hello.queries.len(), 14);
    assert_eq!(hello.commands[0], "register_agent");
    assert_eq!(hello.queries[13], "diff_workspace_version");
    assert_eq!(hello.mutation_acknowledgement, "durable_or_error");
    assert!(hello.provider_neutral && hello.transport_neutral);
}

#[test]
fn an_agent_registers_only_itself() {
    let command = RegisterAgentCommand {
        agent_id: "agent-2".into(),
        provider_metadata: None,
        display_name: None,
    };
    let failure = register_agent_request("agent-1", command.clone(), "t".into()).unwrap_err();
    assert_eq!(failure.code, ProtocolErrorCode::Forbidden);
    let request = register_agent_request("agent-2", command, "t".into()).unwrap();
    assert_eq!(request.provider, "unspecified");
}

#[test]
fn execution_ownership_is_checked_before_revisions() {
    let found = Some(execution("agent-2", "running", 3));
    let failure = require_execution_owner("agent-1", "exec-1", &found).unwrap_err();
    assert_eq!(failure.code, ProtocolErrorCode::Forbidden);
    let details = failure.details.unwrap();
    assert_eq!(details.entity_kind.as_deref(), Some("execution"));
    let failure = require_execution_owner("agent-1", "exec-1", &None).unwrap_err();
    assert_eq!(failure.code, ProtocolErrorCode::NotFound);
}

#[test]
fn lifecycle_transitions_follow_the_allowed_moves() {
    assert!(protocol_execution_transition_allowed("created", "running"));
    assert!(!protocol_execution_transition_allowed("created", "completed"));
    assert!(protocol_execution_transition_allowed("paused", "completed"));
    for terminal in ["completed", "failed", "interrupted", "unknown", "other"] {
        assert!(!protocol_execution_transition_allowed(terminal, "running"));
    }
    for state in ["created", "running", "paused", "completed"] {
        assert!(!protocol_execution_transition_allowed(state, "created"));
    }
    let found = Some(execution("agent-1", "running", 4));
    let failure =
        require_execution_transition("agent-1", "exec-1", 3, "paused", &None, &found).unwrap_err();
    assert_eq!(failure.code, ProtocolErrorCode::RevisionConflict);
    let details = failure.details.unwrap();
    assert_eq!(details.expected_revision, Some(3));
    assert_eq!(details.actual_revision, Some(4));
    assert!(require_execution_transition("agent-1", "exec-1", 4, "paused", &None, &found).is_ok());
    // A retry of a move that already happened is accepted at any revision.
    let done = Some(execution("agent-1", "paused", 5));
    assert!(require_execution_transition("agent-1", "exec-1", 4, "paused", &None, &done).is_ok());
    let failure =
        require_execution_transition("agent-1", "exec-1", -1, "paused", &None, &done).unwrap_err();
    assert_eq!(failure.code, ProtocolErrorCode::ValidationError);
}

#[test]
fn workspace_revision_must_match() {
    let found = Some(workspace(7));
    assert!(require_workspace_revision("ws-1", 7, &found).is_ok());
    let failure = require_workspace_revision("ws-1", 6, &found).unwrap_err();
    assert_eq!(failure.code, ProtocolErrorCode::RevisionConflict);
    assert!(failure.retryable);
}

#[test]
fn version_selection_accepts_an_exact_retry() {
    let mut done = execution("agent-1", "running", 4);
    done.current_version_id = Some("v-1".into());
    assert!(require_execution_version_revisions(
        "agent-1",
        "exec-1",
        "ws-1",
        "v-1",
        3,
        6,
        &Some(done),
        &Some(workspace(7)),
    )
    .is_ok());
    let failure = require_execution_version_revisions(
        "agent-1",
        "exec-1",
        "ws-1",
        "v-1",
        3,
        6,
        &Some(execution("agent-1", "running", 3)),
        &Some(workspace(7)),
    )
    .unwrap_err();
    assert_eq!(failure.code, ProtocolErrorCode::RevisionConflict);
    assert_eq!(failure.details.unwrap().entity_kind.as_deref(), Some("workspace"));
}

#[test]
fn lease_authority_must_be_current_and_owned() {
    let stored = Some(lease(Some("agent-1"), 2, true));
    assert!(require_lease("agent-1", &authority("agent-1", 2), &stored).is_ok());
    let failure = require_lease("agent-1", &authority("agent-1", 1), &stored).unwrap_err();
    assert_eq!(failure.code, ProtocolErrorCode::LeaseConflict);
    assert!(require_lease("agent-2", &authority("agent-1", 2), &stored).is_err());
    assert!(require_lease("agent-1", &authority("agent-1", 2), &None).is_err());
}

#[test]
fn acquiring_a_held_lease_returns_it_or_conflicts() {
    let held = Some(lease(Some("agent-1"), 2, true));
    let own = acquire_lease_step("agent-1", "ws-1", 100, &held).unwrap().unwrap();
    assert_eq!(own.authority.epoch, 2);
    assert!(acquire_lease_step("agent-2", "ws-1", 100, &held).is_err());
    assert!(acquire_lease_step("agent-2", "ws-1", 100, &None).unwrap().is_none());
    let failure = acquire_lease_step("agent-1", "ws-1", 0, &None).unwrap_err();
    assert_eq!(failure.message, "lease ttl_ms must be positive");
}

#[test]
fn released_lease_is_recognised_by_epoch() {
    let released = Some(lease(None, 2, false));
    assert!(lease_already_released(&authority("agent-1", 2), &released));
    assert!(!lease_already_released(&authority("agent-1", 3), &released));
    assert!(lease_resource_from_view(&lease(None, 2, false)).is_none());
}

#[test]
fn terminal_operation_outcomes_are_consistent() {
    let completed = FinishOperationCommand {
        execution_id: "exec-1".into(),
        status: OperationTerminalStatus::Completed,
        failure: None,
    };
    assert!(validate_operation_outcome_command(&completed).is_ok());
    let failed = FinishOperationCommand {
        execution_id: "exec-1".into(),
        status: OperationTerminalStatus::Failed,
        failure: Some(OperationFailureResource {
            code: " ".into(),
            retryable: false,
        }),
    };
    assert_eq!(
        validate_operation_outcome_command(&failed).unwrap_err().message,
        "operation failure code must not be empty"
    );
    assert_eq!(OperationTerminalStatus::Cancelled.as_str(), "cancelled");
}

#[test]
fn domain_errors_are_answered_without_their_text() {
    let failure = ProtocolFailure::from_pong(PongError::Conflict("secret detail".into()));
    assert_eq!(failure.code, ProtocolErrorCode::Conflict);
    assert_eq!(failure.message, "durable state conflicts with the request");
    assert!(failure.retryable);
    let failure = ProtocolFailure::from_pong(PongError::FaultInjected("x".into()));
    assert_eq!(failure.code, ProtocolErrorCode::RecoveryRequired);
    let failure = ProtocolFailure::from_workspace_binding(WorkspaceBindingError::Unavailable);
    assert_eq!(failure.code, ProtocolErrorCode::InternalError);
    assert!(failure.retryable);
    let response = ProtocolResponse::failure("r".into(), None, failure);
    assert_eq!(response.error.unwrap().message, "workspace binding service is unavailable");
}

#[test]
fn entity_queries_carry_their_identity() {
    let call = ProtocolCall::GetAgent(EntityQuery { id: "agent-1".into() });
    let request = request(call.clone());
    assert_eq!(request.call, call);
}

#[test]
fn a_publish_command_becomes_a_publication_request() {
    let command = PublishVersionCommand {
        execution_id: "exe-1".to_string(),
        workspace_id: "ws-1".to_string(),
        lease: LeaseAuthority {
            workspace_id: "ws-1".to_string(),
            agent_id: "agent-1".to_string(),
            epoch: 2,
            expires_at_ms: 9_000,
        },
        expected_workspace_revision: 7,
        parent_version_id: None,
        update_version_head: true,
    };
    let r = publish_request_for_command(command, "op-1", "req-9", "t1", 1_000);
    assert_eq!(r.session_id.as_deref(), Some("protocol-request:req-9"));
    assert_eq!(r.tool.as_deref(), Some("external-agent-protocol"));
    assert_eq!(r.lease.epoch, 2);
    assert_eq!(r.expected_workspace_revision, 7);
    assert_eq!(r.now_ms, 1_000);
    assert_eq!(r.operation_id, "op-1");
}

#[test]
fn an_external_operation_is_recorded_as_an_unknown_external_effect() {
    let e = execution("agent-1", "running", 1);
    let envelope = execution_operation_envelope(
        &e,
        StartOperationCommand { execution_id: "exe-1".to_string(), action: "tool.run".to_string() },
        "op-1",
        "req-1",
        "agent-1",
        Some("env-1".to_string()),
        "t1",
    );
    assert_eq!(envelope.session_id, "execution:exe-1");
    assert_eq!(envelope.tool, "external-agent-runtime");
    assert_eq!(envelope.side_effect, "EXTERNAL");
    assert_eq!(envelope.reversibility, "UNKNOWN");
    assert_eq!(envelope.workspace_id.as_deref(), Some("ws-1"));
    assert_eq!(envelope.environment_id.as_deref(), Some("env-1"));
    assert_eq!(envelope.action, "tool.run");

    let (status, error, result) = operation_outcome(FinishOperationCommand {
        execution_id: "exe-1".to_string(),
        status: OperationTerminalStatus::Failed,
        failure: Some(OperationFailureResource { code: "E_TOOL".to_string(), retryable: true }),
    });
    assert_eq!(status, "failed");
    let error = error.unwrap();
    assert_eq!(error.code, "E_TOOL");
    assert!(error.retryable && !error.safe_to_expose);
    assert!(result.is_none());
    let (status, error, result) = operation_outcome(FinishOperationCommand {
        execution_id: "exe-1".to_string(),
        status: OperationTerminalStatus::Completed,
        failure: None,
    });
    assert_eq!(status, "completed");
    assert!(error.is_none());
    assert!(result.is_some());
}

#[test]
fn resolver_answers_pass_paths_through_and_map_refusals() {
    assert_eq!(
        binding_answer_outcome(Ok("/srv/work/w1".to_owned())).unwrap(),
        "/srv/work/w1"
    );
    let failure = binding_answer_outcome(Err(WorkspaceBindingError::Forbidden)).unwrap_err();
    assert_eq!(failure.code, ProtocolErrorCode::Forbidden);
    assert_eq!(failure.message, "workspace binding reference is not authorized");
    assert!(!failure.retryable);
    let failure = binding_answer_outcome(Err(WorkspaceBindingError::NotFound)).unwrap_err();
    assert_eq!(failure.code, ProtocolErrorCode::NotFound);
}

fn reads(execution: Option<ExecutionRecord>) -> DispatchReads {
    DispatchReads { execution, workspace: None, lease: None, operation: None }
}

#[test]
fn dispatch_refuses_a_caller_that_does_not_own_the_execution() {
    let call = ProtocolCall::GetExecution(EntityQuery { id: "exec-1".into() });
    match dispatch_decision("agent-2", request(call), &reads(Some(execution("agent-1", "running", 1)))) {
        DispatchStep::Refuse(f) => {
            assert_eq!(f.code, ProtocolErrorCode::Forbidden);
            assert_eq!(f.message, "caller does not own the target Execution");
            let details = f.details.expect("the execution is named");
            assert_eq!(details.entity_kind.as_deref(), Some("execution"));
            assert_eq!(details.entity_id.as_deref(), Some("exec-1"));
        }
        _ => panic!("a non-owner must be refused"),
    }
    let start = ProtocolCall::StartExecution(ExecutionRevisionCommand {
        execution_id: "exec-1".into(),
        expected_revision: 1,
    });
    assert!(matches!(
        dispatch_decision("agent-2", request(start), &reads(Some(execution("agent-1", "created", 1)))),
        DispatchStep::Refuse(f) if f.code == ProtocolErrorCode::Forbidden
    ));
}

#[test]
fn dispatch_answers_and_hands_on_admitted_calls() {
    let call = ProtocolCall::GetExecution(EntityQuery { id: "exec-1".into() });
    match dispatch_decision("agent-1", request(call), &reads(Some(execution("agent-1", "running", 1)))) {
        DispatchStep::Answer(ProtocolResult::Execution(x)) => assert_eq!(x.execution_id, "exec-1"),
        _ => panic!("an owner reads its Execution"),
    }
    let missing = ProtocolCall::GetExecution(EntityQuery { id: "exec-9".into() });
    match dispatch_decision("agent-1", request(missing), &reads(None)) {
        DispatchStep::Refuse(f) => assert_eq!(f.code, ProtocolErrorCode::NotFound),
        _ => panic!("an absent Execution is not found"),
    }
    let task = ProtocolCall::CreateTask(CreateTaskCommand {
        task_id: "task-1".into(),
        project_id: "project-1".into(),
        goal_ref: "goal".into(),
        context_ref: None,
    });
    assert!(matches!(
        dispatch_decision("agent-1", request(task.clone()), &reads(None)),
        DispatchStep::Act(c) if c == task
    ));
    assert!(matches!(
        dispatch_decision("agent-1", request(ProtocolCall::Hello), &reads(None)),
        DispatchStep::Refuse(f) if f.code == ProtocolErrorCode::InternalError
    ));
}

#[test]
fn dispatch_answers_lease_retries_from_what_was_read() {
    let acquire = ProtocolCall::AcquireWorkspaceLease(AcquireLeaseCommand {
        execution_id: "exec-1".into(),
        workspace_id: "ws-1".into(),
        ttl_ms: 1_000,
    });
    let mut found = reads(Some(execution("agent-1", "running", 1)));
    found.lease = Some(lease(Some("agent-1"), 3, true));
    assert!(matches!(
        dispatch_decision("agent-1", request(acquire.clone()), &found),
        DispatchStep::Answer(ProtocolResult::Lease(_))
    ));
    found.lease = Some(lease(Some("agent-2"), 3, true));
    assert!(matches!(
        dispatch_decision("agent-1", request(acquire.clone()), &found),
        DispatchStep::Refuse(f) if f.code == ProtocolErrorCode::LeaseConflict
    ));
    found.lease = None;
    assert!(matches!(dispatch_decision("agent-1", request(acquire), &found), DispatchStep::Act(_)));
    let release = ProtocolCall::ReleaseWorkspaceLease(ReleaseLeaseCommand { lease: authority("agent-1", 3) });
    let mut released = reads(None);
    released.lease = Some(lease(None, 3, false));
    match dispatch_decision("agent-1", request(release), &released) {
        DispatchStep::Answer(ProtocolResult::Released(x)) => {
            assert_eq!(x.entity_kind, "workspace_lease");
            assert_eq!(x.entity_id, "ws-1");
        }
        _ => panic!("a released lease is answered as released"),
    }
}

#[test]
fn dispatch_requires_the_operation_identity_first() {
    let call = ProtocolCall::StartOperation(StartOperationCommand {
        execution_id: "exec-1".into(),
        action: "write".into(),
    });
    match dispatch_decision("agent-2", request(call), &reads(None)) {
        DispatchStep::Refuse(f) => {
            assert_eq!(f.code, ProtocolErrorCode::ValidationError);
            assert_eq!(f.message, "operation_id is required");
        }
        _ => panic!("an Operation call needs its identity"),
    }
}

#[test]
fn dispatch_refuses_renewal_with_the_lease_failure_first() {
    let renew = ProtocolCall::RenewWorkspaceLease(RenewLeaseCommand {
        lease: authority("agent-1", 3),
        ttl_ms: 0,
    });
    match dispatch_decision("agent-1", request(renew.clone()), &reads(None)) {
        DispatchStep::Refuse(f) => {
            assert_eq!(f.code, ProtocolErrorCode::LeaseConflict);
            assert!(f.retryable);
        }
        _ => panic!("a missing lease refuses the renewal"),
    }
    let mut held = reads(None);
    held.lease = Some(lease(Some("agent-1"), 3, true));
    match dispatch_decision("agent-1", request(renew), &held) {
        DispatchStep::Refuse(f) => {
            assert_eq!(f.code, ProtocolErrorCode::ValidationError);
            assert_eq!(f.message, "lease ttl_ms must be positive");
        }
        _ => panic!("a non-positive ttl refuses the renewal"),
    }
}

#[test]
fn get_execution_answers_the_whole_record() {
    let record = execution("agent-1", "running", 7);
    let call = ProtocolCall::GetExecution(EntityQuery { id: "exec-1".into() });
    match dispatch_decision("agent-1", request(call), &reads(Some(record.clone()))) {
        DispatchStep::Answer(ProtocolResult::Execution(x)) => {
            assert_eq!(x.revision, 7);
            assert_eq!(x.state, "running");
            assert_eq!(x.created_at, record.created_at);
            assert_eq!(x.workspace_id, record.workspace_id);
        }
        _ => panic!("an owner reads its Execution"),
    }
}

fn agent_row() -> Option<AgentIdentity> {
    Some(AgentIdentity {
        agent_id: "agent-1".into(),
        provider: "p".into(),
        display_name: None,
        created_at: "t0".into(),
    })
}

#[test]
fn handle_step_frames_every_response_under_the_request() {
    let mut bad = request(ProtocolCall::Hello);
    bad.protocol_version = "9.9".into();
    bad.operation_id = Some("op-1".into());
    match handle_step(bad, &None, &reads(None)) {
        HandleStep::Respond(r) => {
            assert_eq!(r.protocol_version, "1.0");
            assert_eq!(r.request_id, "req-1");
            assert_eq!(r.operation_id.as_deref(), Some("op-1"));
            assert_eq!(r.status, ProtocolStatus::Error);
            assert!(r.result.is_none());
            assert_eq!(r.error.unwrap().code, ProtocolErrorCode::UnsupportedVersion);
        }
        _ => panic!("an unsupported version is answered"),
    }
    match handle_step(request(ProtocolCall::Hello), &None, &reads(None)) {
        HandleStep::Respond(r) => {
            assert_eq!(r.status, ProtocolStatus::Success);
            assert!(matches!(r.result, Some(ProtocolResult::Hello(_))));
            assert!(r.error.is_none());
        }
        _ => panic!("hello is answered"),
    }
    let get = ProtocolCall::GetExecution(EntityQuery { id: "exec-1".into() });
    match handle_step(request(get.clone()), &None, &reads(None)) {
        HandleStep::Respond(r) => assert_eq!(r.error.unwrap().code, ProtocolErrorCode::Unauthorized),
        _ => panic!("an unregistered caller is refused"),
    }
    match handle_step(request(get), &agent_row(), &reads(Some(execution("agent-2", "running", 1)))) {
        HandleStep::Respond(r) => {
            let e = r.error.unwrap();
            assert_eq!(e.code, ProtocolErrorCode::Forbidden);
            assert_eq!(e.details.unwrap().entity_id.as_deref(), Some("exec-1"));
        }
        _ => panic!("a foreign Execution is refused"),
    }
    let task = ProtocolCall::CreateTask(CreateTaskCommand {
        task_id: "task-1".into(),
        project_id: "project-1".into(),
        goal_ref: "goal".into(),
        context_ref: None,
    });
    match handle_step(request(task.clone()), &agent_row(), &reads(None)) {
        HandleStep::Act { request_id, caller, call, .. } => {
            assert_eq!(request_id, "req-1");
            assert_eq!(caller, "agent-1");
            assert_eq!(call, task);
        }
        _ => panic!("an admitted command goes on to its durable work"),
    }
}
