//! The transport-independent external Agent protocol: its wire-safe
//! requests, results and errors, and the rules that decide each command
//! before and after the durable work it asks for.
//!
//! The durable work itself (reading and writing Agents, Executions,
//! Workspaces, leases, Versions and Operations) is done by the repository
//! owner; every decision the protocol makes around it is a function here of
//! the request and of the rows that work returned.
use crate::control::{
    LeaseView, PublishVersionRequest, RegisterAgentRequest, SnapshotView, StateView, WorkspaceView,
};
use crate::error::{text_of, PongError};
use crate::json::JsonValue;
use crate::records::{
    AgentIdentity, CheckpointRecord, ExecutionRecord, HandoffRecord, LeaseToken, OperationEnvelope,
    OperationError, OperationRecord, ResumeRecord, TaskRecord, VersionRecord,
    OPERATION_SCHEMA_VERSION,
};
use crate::text::{clone_opt, concat, is_blank, opt_is, opt_text, str_equal, str_is_blank};
use vstd::prelude::*;

verus! {

broadcast use vstd::string::group_string_axioms;

pub const EXTERNAL_AGENT_PROTOCOL_VERSION: &'static str = "1.0";

#[derive(Clone, Debug, PartialEq, Eq)]
pub enum ProtocolCall {
    Hello,
    RegisterAgent(RegisterAgentCommand),
    CreateTask(CreateTaskCommand),
    CreateWorkspace(CreateWorkspaceCommand),
    CreateExecution(CreateExecutionCommand),
    StartExecution(ExecutionRevisionCommand),
    PauseExecution(ExecutionOutcomeCommand),
    CompleteExecution(ExecutionOutcomeCommand),
    FailExecution(ExecutionOutcomeCommand),
    InterruptExecution(ExecutionOutcomeCommand),
    AcquireWorkspaceLease(AcquireLeaseCommand),
    RenewWorkspaceLease(RenewLeaseCommand),
    ReleaseWorkspaceLease(ReleaseLeaseCommand),
    PublishVersion(PublishVersionCommand),
    SetExecutionCurrentVersion(SetExecutionVersionCommand),
    CreateCheckpoint(CreateCheckpointCommand),
    ResumeFromCheckpoint(ResumeCheckpointCommand),
    CreateHandoff(CreateHandoffCommand),
    MaterializeVersion(MaterializeVersionCommand),
    StartOperation(StartOperationCommand),
    FinishOperation(FinishOperationCommand),
    GetAgent(EntityQuery),
    GetTask(EntityQuery),
    GetExecution(EntityQuery),
    GetWorkspace(EntityQuery),
    GetVersion(EntityQuery),
    GetCheckpoint(EntityQuery),
    GetHandoff(EntityQuery),
    GetOperation(EntityQuery),
    ResolveOperation(OperationRequestQuery),
    InspectExecution(EntityQuery),
    ListCheckpoints(TaskQuery),
    ListHandoffs(TaskQuery),
    DiffWorkspaceVersion(DiffWorkspaceVersionQuery),
}

#[derive(Clone, Copy, Debug, PartialEq, Eq, Structural)]
pub enum OperationTerminalStatus {
    Completed,
    Failed,
    Cancelled,
    Unknown,
}

#[derive(Clone, Copy, Debug, PartialEq, Eq, Structural)]
pub enum ProtocolStatus {
    /// The request was carried out (`"ok"` on the wire).
    Success,
    Error,
}

#[derive(Clone, Debug, PartialEq, Eq)]
pub enum ProtocolResult {
    Hello(HelloResult),
    Agent(AgentResource),
    Task(TaskResource),
    Execution(ExecutionResource),
    Workspace(WorkspaceResource),
    WorkspaceInspection(WorkspaceInspection),
    Lease(LeaseResource),
    Released(ReleasedResource),
    Version(VersionResource),
    VersionPublication(Box<VersionPublicationResource>),
    Snapshot(SnapshotResource),
    Checkpoint(CheckpointResource),
    Checkpoints(ResourceList<CheckpointResource>),
    Handoff(HandoffResource),
    Handoffs(ResourceList<HandoffResource>),
    Resume(ResumeResource),
    Operation(OperationResource),
    ExecutionInspection(Box<ExecutionInspection>),
    Diff(SnapshotDiffResource),
}

#[derive(Clone, Debug, PartialEq, Eq)]
pub struct ResourceList<T> {
    pub items: Vec<T>,
}

#[derive(Clone, Copy, Debug, PartialEq, Eq, Structural)]
pub enum ProtocolErrorCode {
    UnsupportedVersion,
    ValidationError,
    Unauthorized,
    Forbidden,
    NotFound,
    Conflict,
    IntegrityError,
    LeaseConflict,
    RevisionConflict,
    InvalidState,
    IdempotencyConflict,
    NotSupported,
    RecoveryRequired,
    ResourceExhausted,
    InternalError,
}

/// Why a workspace binding reference could not be resolved.
#[derive(Clone, Copy, Debug, PartialEq, Eq, Structural)]
pub enum WorkspaceBindingError {
    Invalid,
    NotFound,
    Forbidden,
    Unavailable,
}

/// Resolves the opaque binding reference a caller names to the local
/// directory it stands for. Hosts implement it; the protocol only maps its
/// refusals to protocol errors.
pub trait WorkspaceBindingResolver {
    /// `answer` is an answer this resolver may give for `binding_ref`: a
    /// host path, or why the reference cannot be used.
    spec fn may_answer(
        &self,
        binding_ref: Seq<char>,
        answer: Result<Seq<char>, WorkspaceBindingError>,
    ) -> bool;

    fn resolve(&self, binding_ref: &str) -> (r: Result<String, WorkspaceBindingError>)
        ensures
            self.may_answer(binding_ref@, binding_answer_view(r)),
    ;
}

/// A resolver's answer with the path taken by its view.
pub open spec fn binding_answer_view(r: Result<String, WorkspaceBindingError>) -> Result<
    Seq<char>,
    WorkspaceBindingError,
> {
    match r {
        Ok(path) => Ok(path@),
        Err(e) => Err(e),
    }
}

/// What the protocol answers for a resolver's answer: the path itself, or
/// the failure that the binding error maps to.
pub open spec fn binding_outcome(
    answer: Result<Seq<char>, WorkspaceBindingError>,
    r: Result<String, ProtocolFailure>,
) -> bool {
    match answer {
        Ok(path) => r matches Ok(p) && p@ == path,
        Err(e) => r matches Err(f) && plain_failure(
            f,
            binding_failure(e).0,
            binding_failure(e).1@,
            binding_failure(e).2,
        ),
    }
}

#[derive(Clone, Debug, PartialEq, Eq)]
pub struct ProtocolRequest {
    pub protocol_version: String,
    pub request_id: String,
    pub caller_agent_id: Option<String>,
    pub issued_at: String,
    pub operation_id: Option<String>,
    pub call: ProtocolCall,
}

#[derive(Clone, Debug, PartialEq, Eq)]
pub struct RegisterAgentCommand {
    pub agent_id: String,
    pub provider_metadata: Option<String>,
    pub display_name: Option<String>,
}

#[derive(Clone, Debug, PartialEq, Eq)]
pub struct CreateTaskCommand {
    pub task_id: String,
    pub project_id: String,
    pub goal_ref: String,
    pub context_ref: Option<String>,
}

#[derive(Clone, Debug, PartialEq, Eq)]
pub struct CreateWorkspaceCommand {
    pub workspace_id: String,
    pub project_id: String,
    pub binding_ref: String,
    pub branch_ref: Option<String>,
    pub environment_id: Option<String>,
}

#[derive(Clone, Debug, PartialEq, Eq)]
pub struct CreateExecutionCommand {
    pub execution_id: String,
    pub task_id: String,
    pub parent_execution_id: Option<String>,
    pub workspace_id: Option<String>,
    pub base_version_id: Option<String>,
}

#[derive(Clone, Debug, PartialEq, Eq)]
pub struct ExecutionRevisionCommand {
    pub execution_id: String,
    pub expected_revision: i64,
}

#[derive(Clone, Debug, PartialEq, Eq)]
pub struct ExecutionOutcomeCommand {
    pub execution_id: String,
    pub expected_revision: i64,
    pub outcome_code: Option<String>,
}

#[derive(Clone, Debug, PartialEq, Eq)]
pub struct StartOperationCommand {
    pub execution_id: String,
    pub action: String,
}

#[derive(Clone, Debug, PartialEq, Eq)]
pub struct OperationFailureResource {
    pub code: String,
    pub retryable: bool,
}

#[derive(Clone, Debug, PartialEq, Eq)]
pub struct FinishOperationCommand {
    pub execution_id: String,
    pub status: OperationTerminalStatus,
    pub failure: Option<OperationFailureResource>,
}

#[derive(Clone, Debug, PartialEq, Eq)]
pub struct AcquireLeaseCommand {
    pub execution_id: String,
    pub workspace_id: String,
    pub ttl_ms: i64,
}

#[derive(Clone, Debug, PartialEq, Eq)]
pub struct RenewLeaseCommand {
    pub lease: LeaseAuthority,
    pub ttl_ms: i64,
}

#[derive(Clone, Debug, PartialEq, Eq)]
pub struct ReleaseLeaseCommand {
    pub lease: LeaseAuthority,
}

#[derive(Clone, Debug, PartialEq, Eq)]
pub struct PublishVersionCommand {
    pub execution_id: String,
    pub workspace_id: String,
    pub lease: LeaseAuthority,
    pub expected_workspace_revision: i64,
    pub parent_version_id: Option<String>,
    pub update_version_head: bool,
}

#[derive(Clone, Debug, PartialEq, Eq)]
pub struct SetExecutionVersionCommand {
    pub execution_id: String,
    pub version_id: String,
    pub lease: LeaseAuthority,
    pub expected_execution_revision: i64,
    pub expected_workspace_revision: i64,
}

#[derive(Clone, Debug, PartialEq, Eq)]
pub struct CreateCheckpointCommand {
    pub checkpoint_id: String,
    pub task_id: String,
    pub execution_id: String,
    pub workspace_id: String,
    pub version_id: String,
    pub source_operation_id: Option<String>,
    pub reason_code: String,
}

#[derive(Clone, Debug, PartialEq, Eq)]
pub struct ResumeCheckpointCommand {
    pub execution_id: String,
    pub task_id: String,
    pub parent_execution_id: Option<String>,
    pub workspace_id: String,
    pub checkpoint_id: String,
}

#[derive(Clone, Debug, PartialEq, Eq)]
pub struct CreateHandoffCommand {
    pub handoff_id: String,
    pub task_id: String,
    pub from_execution_id: String,
    pub to_execution_id: String,
    pub source_version_id: Option<String>,
    pub checkpoint_id: Option<String>,
    pub reason_code: String,
}

#[derive(Clone, Debug, PartialEq, Eq)]
pub struct MaterializeVersionCommand {
    pub execution_id: String,
    pub workspace_id: String,
    pub source_version_id: String,
    pub lease: LeaseAuthority,
    pub expected_workspace_revision: i64,
}

#[derive(Clone, Debug, PartialEq, Eq)]
pub struct EntityQuery {
    pub id: String,
}

#[derive(Clone, Debug, PartialEq, Eq)]
pub struct OperationRequestQuery {
    pub project_id: String,
    pub request_id: String,
}

#[derive(Clone, Debug, PartialEq, Eq)]
pub struct TaskQuery {
    pub task_id: String,
}

#[derive(Clone, Debug, PartialEq, Eq)]
pub struct DiffWorkspaceVersionQuery {
    pub workspace_id: String,
    pub source_version_id: String,
}

#[derive(Clone, Debug, PartialEq, Eq)]
pub struct LeaseAuthority {
    pub workspace_id: String,
    pub agent_id: String,
    pub epoch: i64,
    pub expires_at_ms: i64,
}

#[derive(Clone, Debug, PartialEq, Eq)]
pub struct ProtocolResponse {
    pub protocol_version: String,
    pub request_id: String,
    pub operation_id: Option<String>,
    pub status: ProtocolStatus,
    pub result: Option<ProtocolResult>,
    pub error: Option<ProtocolError>,
}

#[derive(Clone, Debug, PartialEq, Eq)]
pub struct HelloResult {
    pub protocol_versions: Vec<String>,
    pub commands: Vec<String>,
    pub queries: Vec<String>,
    pub mutation_acknowledgement: String,
    pub provider_neutral: bool,
    pub transport_neutral: bool,
}

#[derive(Clone, Debug, PartialEq, Eq)]
pub struct AgentResource {
    pub agent_id: String,
    pub provider_metadata: Option<String>,
    pub display_name: Option<String>,
    pub created_at: String,
}

#[derive(Clone, Debug, PartialEq, Eq)]
pub struct TaskResource {
    pub task_id: String,
    pub project_id: String,
    pub goal_ref: String,
    pub context_ref: Option<String>,
    pub state: String,
    pub revision: i64,
    pub created_at: String,
    pub updated_at: String,
}

#[derive(Clone, Debug, PartialEq, Eq)]
pub struct ExecutionResource {
    pub execution_id: String,
    pub task_id: String,
    pub agent_id: String,
    pub project_id: String,
    pub parent_execution_id: Option<String>,
    pub workspace_id: Option<String>,
    pub base_version_id: Option<String>,
    pub current_version_id: Option<String>,
    pub state: String,
    pub outcome_code: Option<String>,
    pub revision: i64,
    pub created_at: String,
    pub updated_at: String,
}

#[derive(Clone, Debug, PartialEq, Eq)]
pub struct WorkspaceResource {
    pub workspace_id: String,
    pub project_id: String,
    pub branch_ref: Option<String>,
    pub head: Option<String>,
    pub version_head_id: Option<String>,
    pub environment_id: Option<String>,
    pub state: String,
    pub revision: i64,
    pub created_at: String,
    pub updated_at: String,
}

#[derive(Clone, Debug, PartialEq, Eq)]
pub struct WorkspaceInspection {
    pub workspace: WorkspaceResource,
    pub lease: Option<LeaseResource>,
}

#[derive(Clone, Debug, PartialEq, Eq)]
pub struct LeaseResource {
    pub authority: LeaseAuthority,
    pub active: bool,
}

#[derive(Clone, Debug, PartialEq, Eq)]
pub struct ReleasedResource {
    pub entity_kind: String,
    pub entity_id: String,
}

#[derive(Clone, Debug, PartialEq, Eq)]
pub struct VersionResource {
    pub version_id: String,
    pub workspace_id: String,
    pub project_id: String,
    pub snapshot_id: String,
    pub creation_operation_id: String,
    pub environment_id: Option<String>,
    pub parent_version_id: Option<String>,
    pub created_at: String,
}

#[derive(Clone, Debug, PartialEq, Eq)]
pub struct SnapshotResource {
    pub snapshot_id: String,
    pub root_digest: String,
    pub workspace_id: String,
    pub project_id: String,
    pub environment_id: Option<String>,
    pub file_count: usize,
    pub total_bytes: u64,
    pub created_at: String,
}

#[derive(Clone, Debug, PartialEq, Eq)]
pub struct VersionPublicationResource {
    pub snapshot: SnapshotResource,
    pub version: VersionResource,
    pub workspace: WorkspaceResource,
    pub execution_id: String,
    pub operation_attached: bool,
}

#[derive(Clone, Debug, PartialEq, Eq)]
pub struct CheckpointResource {
    pub checkpoint_id: String,
    pub task_id: String,
    pub execution_id: String,
    pub workspace_id: String,
    pub version_id: String,
    pub source_operation_id: Option<String>,
    pub reason_code: String,
    pub actor_agent_id: String,
    pub request_id: String,
    pub created_at: String,
}

#[derive(Clone, Debug, PartialEq, Eq)]
pub struct HandoffResource {
    pub handoff_id: String,
    pub task_id: String,
    pub from_execution_id: String,
    pub to_execution_id: String,
    pub source_version_id: Option<String>,
    pub checkpoint_id: Option<String>,
    pub reason_code: String,
    pub actor_agent_id: String,
    pub request_id: String,
    pub state: String,
    pub created_at: String,
    pub updated_at: String,
}

#[derive(Clone, Debug, PartialEq, Eq)]
pub struct ResumeResource {
    pub execution_id: String,
    pub task_id: String,
    pub agent_id: String,
    pub source_version_id: String,
    pub checkpoint_id: Option<String>,
    pub request_id: String,
    pub created_at: String,
}

#[derive(Clone, Debug, PartialEq, Eq)]
pub struct OperationResource {
    pub operation_id: String,
    pub execution_id: Option<String>,
    pub request_id: String,
    pub agent_id: String,
    pub workspace_id: Option<String>,
    pub action: String,
    pub state: String,
    pub recording_state: String,
    pub failure_code: Option<String>,
    pub started_at: String,
    pub finished_at: Option<String>,
}

#[derive(Clone, Debug, PartialEq, Eq)]
pub struct ExecutionInspection {
    pub agent: AgentResource,
    pub task: TaskResource,
    pub execution: ExecutionResource,
    pub workspace: Option<WorkspaceInspection>,
    pub base_version: Option<VersionResource>,
    pub current_version: Option<VersionResource>,
    pub checkpoints: Vec<CheckpointResource>,
    pub handoffs: Vec<HandoffResource>,
    pub resume: Option<ResumeResource>,
    pub operations: Vec<OperationResource>,
}

#[derive(Clone, Debug, PartialEq, Eq)]
pub struct SnapshotDiffResource {
    pub source_snapshot_id: String,
    pub current_tree_id: String,
    pub entries: Vec<SnapshotDiffEntryResource>,
}

#[derive(Clone, Debug, PartialEq, Eq)]
pub struct SnapshotDiffEntryResource {
    pub path: String,
    pub change: String,
    pub old_digest: Option<String>,
    pub new_digest: Option<String>,
    pub old_size: Option<u64>,
    pub new_size: Option<u64>,
    pub old_type: Option<String>,
    pub new_type: Option<String>,
}

#[derive(Clone, Debug, PartialEq, Eq)]
pub struct ProtocolError {
    pub code: ProtocolErrorCode,
    pub message: String,
    pub retryable: bool,
    pub details: Option<ProtocolErrorDetails>,
}

#[derive(Clone, Debug, PartialEq, Eq)]
pub struct ProtocolErrorDetails {
    pub entity_kind: Option<String>,
    pub entity_id: Option<String>,
    pub expected_revision: Option<i64>,
    pub actual_revision: Option<i64>,
}


/// A protocol failure before it is put on the wire.
#[derive(Debug)]
pub struct ProtocolFailure {
    pub code: ProtocolErrorCode,
    pub message: String,
    pub retryable: bool,
    pub details: Option<ProtocolErrorDetails>,
}

/// `f` carries `code`, `message` and `retryable`, and no details.
pub open spec fn plain_failure(
    f: ProtocolFailure,
    code: ProtocolErrorCode,
    message: Seq<char>,
    retryable: bool,
) -> bool {
    &&& f.code == code
    &&& f.message@ == message
    &&& f.retryable == retryable
    &&& f.details is None
}

/// `f` carries `code`, `message` and `retryable`, and names the entity
/// `kind`/`id` with no revisions.
pub open spec fn entity_failure(
    f: ProtocolFailure,
    code: ProtocolErrorCode,
    message: Seq<char>,
    retryable: bool,
    kind: Seq<char>,
    id: Seq<char>,
) -> bool {
    &&& f.code == code
    &&& f.message@ == message
    &&& f.retryable == retryable
    &&& f.details matches Some(d) && opt_text(d.entity_kind) == Some(kind) && opt_text(d.entity_id)
        == Some(id) && d.expected_revision is None && d.actual_revision is None
}

/// The failure a missing entity is answered with.
pub open spec fn not_found_failure(f: ProtocolFailure, kind: Seq<char>, id: Seq<char>) -> bool {
    entity_failure(
        f,
        ProtocolErrorCode::NotFound,
        "requested entity does not exist"@,
        false,
        kind,
        id,
    )
}

/// The failure a stale or foreign lease is answered with.
pub open spec fn lease_failure(f: ProtocolFailure, workspace_id: Seq<char>) -> bool {
    entity_failure(
        f,
        ProtocolErrorCode::LeaseConflict,
        "Workspace lease authority is missing, stale, foreign, or expired"@,
        true,
        "workspace"@,
        workspace_id,
    )
}

/// The failure a revision mismatch is answered with.
pub open spec fn revision_failure(
    f: ProtocolFailure,
    kind: Seq<char>,
    id: Seq<char>,
    expected: i64,
    actual: i64,
) -> bool {
    &&& f.code == ProtocolErrorCode::RevisionConflict
    &&& f.message@ == "expected revision does not match durable state"@
    &&& f.retryable
    &&& f.details matches Some(d) && opt_text(d.entity_kind) == Some(kind) && opt_text(d.entity_id)
        == Some(id) && d.expected_revision == Some(expected) && d.actual_revision == Some(actual)
}

/// The code, message and retry hint a domain error is answered with.
pub open spec fn pong_failure(e: PongError) -> (ProtocolErrorCode, &'static str, bool) {
    match e {
        PongError::InvalidInput(_) => (
            ProtocolErrorCode::ValidationError,
            "domain request validation failed",
            false,
        ),
        PongError::Integrity(_) => (
            ProtocolErrorCode::IntegrityError,
            "durable state failed integrity validation",
            false,
        ),
        PongError::NotFound(_) => (
            ProtocolErrorCode::NotFound,
            "required durable entity does not exist",
            false,
        ),
        PongError::Conflict(_) => (
            ProtocolErrorCode::Conflict,
            "durable state conflicts with the request",
            true,
        ),
        PongError::IdempotencyKeyReuse(_) => (
            ProtocolErrorCode::IdempotencyConflict,
            "request identity was reused with different content",
            false,
        ),
        PongError::Unsupported(_) => (
            ProtocolErrorCode::NotSupported,
            "operation is not supported by this implementation",
            false,
        ),
        PongError::RecoveryRequired(_) => (
            ProtocolErrorCode::RecoveryRequired,
            "durable state requires explicit recovery",
            true,
        ),
        PongError::ResourceExhausted(_) => (
            ProtocolErrorCode::ResourceExhausted,
            "a required host resource is exhausted",
            true,
        ),
        PongError::PermissionDenied(_) | PongError::PermissionDeniedWithOsError { .. } => (
            ProtocolErrorCode::Forbidden,
            "operation was denied by the protected storage boundary",
            false,
        ),
        PongError::FaultInjected(_) => (
            ProtocolErrorCode::RecoveryRequired,
            "operation result is unconfirmed; inspect durable state before retry",
            true,
        ),
        PongError::Io(_) | PongError::Sqlite(_) | PongError::Serialization(_) => (
            ProtocolErrorCode::InternalError,
            "internal persistence failure",
            true,
        ),
    }
}

/// The code, message and retry hint a refused workspace binding is
/// answered with.
pub open spec fn binding_failure(e: WorkspaceBindingError) -> (ProtocolErrorCode, &'static str, bool) {
    match e {
        WorkspaceBindingError::Invalid => (
            ProtocolErrorCode::ValidationError,
            "workspace binding reference is invalid",
            false,
        ),
        WorkspaceBindingError::NotFound => (
            ProtocolErrorCode::NotFound,
            "workspace binding reference does not exist",
            false,
        ),
        WorkspaceBindingError::Forbidden => (
            ProtocolErrorCode::Forbidden,
            "workspace binding reference is not authorized",
            false,
        ),
        WorkspaceBindingError::Unavailable => (
            ProtocolErrorCode::InternalError,
            "workspace binding service is unavailable",
            true,
        ),
    }
}

impl ProtocolFailure {
    pub fn new(code: ProtocolErrorCode, message: &str, retryable: bool) -> (f: ProtocolFailure)
        ensures
            plain_failure(f, code, message@, retryable),
    {
        ProtocolFailure { code, message: text_of(message), retryable, details: None }
    }

    pub fn validation(message: &str) -> (f: ProtocolFailure)
        ensures
            plain_failure(f, ProtocolErrorCode::ValidationError, message@, false),
    {
        ProtocolFailure::new(ProtocolErrorCode::ValidationError, message, false)
    }

    pub fn forbidden(message: &str) -> (f: ProtocolFailure)
        ensures
            plain_failure(f, ProtocolErrorCode::Forbidden, message@, false),
    {
        ProtocolFailure::new(ProtocolErrorCode::Forbidden, message, false)
    }

    /// Name the entity the failure is about, replacing any details.
    pub fn with_entity(self, kind: &str, id: &str) -> (f: ProtocolFailure)
        ensures
            entity_failure(f, self.code, self.message@, self.retryable, kind@, id@),
    {
        ProtocolFailure {
            code: self.code,
            message: self.message,
            retryable: self.retryable,
            details: Some(
                ProtocolErrorDetails {
                    entity_kind: Some(text_of(kind)),
                    entity_id: Some(text_of(id)),
                    expected_revision: None,
                    actual_revision: None,
                },
            ),
        }
    }

    pub fn not_found(kind: &str, id: &str) -> (f: ProtocolFailure)
        ensures
            not_found_failure(f, kind@, id@),
    {
        ProtocolFailure::new(ProtocolErrorCode::NotFound, "requested entity does not exist", false)
            .with_entity(kind, id)
    }

    pub fn revision(kind: &str, id: &str, expected: i64, actual: i64) -> (f: ProtocolFailure)
        ensures
            revision_failure(f, kind@, id@, expected, actual),
    {
        let failure = ProtocolFailure::new(
            ProtocolErrorCode::RevisionConflict,
            "expected revision does not match durable state",
            true,
        ).with_entity(kind, id);
        ProtocolFailure {
            code: failure.code,
            message: failure.message,
            retryable: failure.retryable,
            details: Some(
                ProtocolErrorDetails {
                    entity_kind: Some(text_of(kind)),
                    entity_id: Some(text_of(id)),
                    expected_revision: Some(expected),
                    actual_revision: Some(actual),
                },
            ),
        }
    }

    pub fn lease(workspace_id: &str) -> (f: ProtocolFailure)
        ensures
            lease_failure(f, workspace_id@),
    {
        ProtocolFailure::new(
            ProtocolErrorCode::LeaseConflict,
            "Workspace lease authority is missing, stale, foreign, or expired",
            true,
        ).with_entity("workspace", workspace_id)
    }

    /// Answer a domain error without disclosing its text.
    pub fn from_pong(error: PongError) -> (f: ProtocolFailure)
        ensures
            plain_failure(
                f,
                pong_failure(error).0,
                pong_failure(error).1@,
                pong_failure(error).2,
            ),
    {
        match error {
            PongError::InvalidInput(_) => ProtocolFailure::new(
                ProtocolErrorCode::ValidationError,
                "domain request validation failed",
                false,
            ),
            PongError::Integrity(_) => ProtocolFailure::new(
                ProtocolErrorCode::IntegrityError,
                "durable state failed integrity validation",
                false,
            ),
            PongError::NotFound(_) => ProtocolFailure::new(
                ProtocolErrorCode::NotFound,
                "required durable entity does not exist",
                false,
            ),
            PongError::Conflict(_) => ProtocolFailure::new(
                ProtocolErrorCode::Conflict,
                "durable state conflicts with the request",
                true,
            ),
            PongError::IdempotencyKeyReuse(_) => ProtocolFailure::new(
                ProtocolErrorCode::IdempotencyConflict,
                "request identity was reused with different content",
                false,
            ),
            PongError::Unsupported(_) => ProtocolFailure::new(
                ProtocolErrorCode::NotSupported,
                "operation is not supported by this implementation",
                false,
            ),
            PongError::RecoveryRequired(_) => ProtocolFailure::new(
                ProtocolErrorCode::RecoveryRequired,
                "durable state requires explicit recovery",
                true,
            ),
            PongError::ResourceExhausted(_) => ProtocolFailure::new(
                ProtocolErrorCode::ResourceExhausted,
                "a required host resource is exhausted",
                true,
            ),
            PongError::PermissionDenied(_) | PongError::PermissionDeniedWithOsError { .. } => {
                ProtocolFailure::new(
                    ProtocolErrorCode::Forbidden,
                    "operation was denied by the protected storage boundary",
                    false,
                )
            },
            PongError::FaultInjected(_) => ProtocolFailure::new(
                ProtocolErrorCode::RecoveryRequired,
                "operation result is unconfirmed; inspect durable state before retry",
                true,
            ),
            PongError::Io(_) | PongError::Sqlite(_) | PongError::Serialization(_) => {
                ProtocolFailure::new(
                    ProtocolErrorCode::InternalError,
                    "internal persistence failure",
                    true,
                )
            },
        }
    }

    /// Answer a refused workspace binding.
    pub fn from_workspace_binding(error: WorkspaceBindingError) -> (f: ProtocolFailure)
        ensures
            plain_failure(
                f,
                binding_failure(error).0,
                binding_failure(error).1@,
                binding_failure(error).2,
            ),
    {
        match error {
            WorkspaceBindingError::Invalid => ProtocolFailure::validation(
                "workspace binding reference is invalid",
            ),
            WorkspaceBindingError::NotFound => ProtocolFailure::new(
                ProtocolErrorCode::NotFound,
                "workspace binding reference does not exist",
                false,
            ),
            WorkspaceBindingError::Forbidden => ProtocolFailure::new(
                ProtocolErrorCode::Forbidden,
                "workspace binding reference is not authorized",
                false,
            ),
            WorkspaceBindingError::Unavailable => ProtocolFailure::new(
                ProtocolErrorCode::InternalError,
                "workspace binding service is unavailable",
                true,
            ),
        }
    }

    /// The wire form of the failure.
    pub fn into_error(self) -> (e: ProtocolError)
        ensures
            e.code == self.code,
            e.message == self.message,
            e.retryable == self.retryable,
            e.details == self.details,
    {
        ProtocolError {
            code: self.code,
            message: self.message,
            retryable: self.retryable,
            details: self.details,
        }
    }
}

impl ProtocolResponse {
    /// The answer to a request that could not be decoded: a validation error
    /// under the request id that could be recovered, or `unknown`.
    pub fn invalid_envelope(request_id: Option<String>) -> (r: ProtocolResponse)
        ensures
            r.protocol_version@ == EXTERNAL_AGENT_PROTOCOL_VERSION@,
            r.request_id@ == match request_id {
                Some(id) => id@,
                None => "unknown"@,
            },
            r.operation_id is None,
            r.status == ProtocolStatus::Error,
            r.result is None,
            r.error matches Some(e) && e.code == ProtocolErrorCode::ValidationError && e.message@
                == "request envelope is invalid"@ && !e.retryable && e.details is None,
    {
        let id = match request_id {
            Some(id) => id,
            None => text_of("unknown"),
        };
        ProtocolResponse::failure(
            id,
            None,
            ProtocolFailure::validation("request envelope is invalid"),
        )
    }

    pub fn success(request_id: String, operation_id: Option<String>, result: ProtocolResult) -> (r:
        ProtocolResponse)
        ensures
            r.protocol_version@ == EXTERNAL_AGENT_PROTOCOL_VERSION@,
            r.request_id == request_id,
            r.operation_id == operation_id,
            r.status == ProtocolStatus::Success,
            r.result == Some(result),
            r.error is None,
    {
        ProtocolResponse {
            protocol_version: text_of(EXTERNAL_AGENT_PROTOCOL_VERSION),
            request_id,
            operation_id,
            status: ProtocolStatus::Success,
            result: Some(result),
            error: None,
        }
    }

    pub fn failure(request_id: String, operation_id: Option<String>, failure: ProtocolFailure) -> (r:
        ProtocolResponse)
        ensures
            r.protocol_version@ == EXTERNAL_AGENT_PROTOCOL_VERSION@,
            r.request_id == request_id,
            r.operation_id == operation_id,
            r.status == ProtocolStatus::Error,
            r.result is None,
            r.error matches Some(e) && e.code == failure.code && e.message == failure.message
                && e.retryable == failure.retryable && e.details == failure.details,
    {
        ProtocolResponse {
            protocol_version: text_of(EXTERNAL_AGENT_PROTOCOL_VERSION),
            request_id,
            operation_id,
            status: ProtocolStatus::Error,
            result: None,
            error: Some(failure.into_error()),
        }
    }

    /// The response to a request, from the outcome of dispatching it: the
    /// request and operation identities are echoed either way.
    pub fn from_outcome(
        request_id: String,
        operation_id: Option<String>,
        outcome: Result<ProtocolResult, ProtocolFailure>,
    ) -> (r: ProtocolResponse)
        ensures
            r.protocol_version@ == EXTERNAL_AGENT_PROTOCOL_VERSION@,
            r.request_id == request_id,
            r.operation_id == operation_id,
            match outcome {
                Ok(result) => r.status == ProtocolStatus::Success && r.result == Some(result)
                    && r.error is None,
                Err(f) => r.status == ProtocolStatus::Error && r.result is None && (r.error matches Some(
                    e,
                ) && e.code == f.code && e.message == f.message && e.retryable == f.retryable
                    && e.details == f.details),
            },
    {
        match outcome {
            Ok(result) => ProtocolResponse::success(request_id, operation_id, result),
            Err(failure) => ProtocolResponse::failure(request_id, operation_id, failure),
        }
    }
}

impl OperationTerminalStatus {
    /// The lifecycle status a terminal outcome records.
    pub fn as_str(&self) -> (r: &'static str)
        ensures
            r@ == match *self {
                OperationTerminalStatus::Completed => "completed"@,
                OperationTerminalStatus::Failed => "failed"@,
                OperationTerminalStatus::Cancelled => "cancelled"@,
                OperationTerminalStatus::Unknown => "unknown"@,
            },
    {
        match self {
            OperationTerminalStatus::Completed => "completed",
            OperationTerminalStatus::Failed => "failed",
            OperationTerminalStatus::Cancelled => "cancelled",
            OperationTerminalStatus::Unknown => "unknown",
        }
    }
}

/// The first header field a request leaves empty, in the order they are
/// checked.
pub open spec fn header_problem(request: ProtocolRequest) -> Option<Seq<char>> {
    if is_blank(request.protocol_version@) {
        Some("protocol_version"@)
    } else if is_blank(request.request_id@) {
        Some("request_id"@)
    } else if is_blank(request.issued_at@) {
        Some("issued_at"@)
    } else if request.caller_agent_id matches Some(c) && is_blank(c@) {
        Some("caller_agent_id"@)
    } else if request.operation_id matches Some(o) && is_blank(o@) {
        Some("operation_id"@)
    } else {
        None
    }
}

/// An envelope header is acceptable exactly when its protocol version,
/// request id and issue time are not blank, and the caller and operation
/// ids, when present, are not blank either.
pub proof fn lemma_acceptable_headers(request: ProtocolRequest)
    ensures
        header_problem(request) is None <==> (!is_blank(request.protocol_version@) && !is_blank(
            request.request_id@,
        ) && !is_blank(request.issued_at@) && (request.caller_agent_id is Some ==> !is_blank(
            request.caller_agent_id->0@,
        )) && (request.operation_id is Some ==> !is_blank(request.operation_id->0@))),
{
}

fn empty_field(label: &str) -> (f: ProtocolFailure)
    ensures
        plain_failure(
            f,
            ProtocolErrorCode::ValidationError,
            label@ + " must not be empty"@,
            false,
        ),
{
    let message = concat(label, " must not be empty");
    ProtocolFailure::validation(message.as_str())
}

/// Check that every header field a request carries is non-blank.
pub fn validate_request_header(request: &ProtocolRequest) -> (r: Result<(), ProtocolFailure>)
    ensures
        r is Ok <==> header_problem(*request) is None,
        header_problem(*request) matches Some(label) ==> (r matches Err(f) && plain_failure(
            f,
            ProtocolErrorCode::ValidationError,
            label + " must not be empty"@,
            false,
        )),
{
    proof {
        reveal_strlit("protocol_version");
        reveal_strlit("request_id");
        reveal_strlit("issued_at");
        reveal_strlit("caller_agent_id");
        reveal_strlit("operation_id");
    }
    if str_is_blank(request.protocol_version.as_str()) {
        return Err(empty_field("protocol_version"));
    }
    if str_is_blank(request.request_id.as_str()) {
        return Err(empty_field("request_id"));
    }
    if str_is_blank(request.issued_at.as_str()) {
        return Err(empty_field("issued_at"));
    }
    if let Some(caller) = &request.caller_agent_id {
        if str_is_blank(caller.as_str()) {
            return Err(empty_field("caller_agent_id"));
        }
    }
    if let Some(operation) = &request.operation_id {
        if str_is_blank(operation.as_str()) {
            return Err(empty_field("operation_id"));
        }
    }
    Ok(())
}

/// Check a request's envelope before its call is looked at: the header is
/// complete and the protocol version is the supported one.
pub fn check_envelope(request: &ProtocolRequest) -> (r: Result<(), ProtocolFailure>)
    ensures
        r is Ok <==> header_problem(*request) is None && request.protocol_version@
            == EXTERNAL_AGENT_PROTOCOL_VERSION@,
        header_problem(*request) matches Some(label) ==> (r matches Err(f) && plain_failure(
            f,
            ProtocolErrorCode::ValidationError,
            label + " must not be empty"@,
            false,
        )),
        (header_problem(*request) is None && request.protocol_version@
            != EXTERNAL_AGENT_PROTOCOL_VERSION@) ==> (r matches Err(f) && plain_failure(
            f,
            ProtocolErrorCode::UnsupportedVersion,
            "protocol version is not supported"@,
            false,
        )),
{
    validate_request_header(request)?;
    if !str_equal(request.protocol_version.as_str(), EXTERNAL_AGENT_PROTOCOL_VERSION) {
        return Err(
            ProtocolFailure::new(
                ProtocolErrorCode::UnsupportedVersion,
                "protocol version is not supported",
                false,
            ),
        );
    }
    Ok(())
}

/// The caller identity a request asserts; every call but `hello` needs one.
pub fn required_caller(caller: &Option<String>) -> (r: Result<&str, ProtocolFailure>)
    ensures
        match *caller {
            Some(c) => r matches Ok(s) && s@ == c@,
            None => r matches Err(f) && plain_failure(
                f,
                ProtocolErrorCode::Unauthorized,
                "caller Agent identity is required"@,
                false,
            ),
        },
{
    match caller {
        Some(c) => Ok(c.as_str()),
        None => Err(
            ProtocolFailure::new(
                ProtocolErrorCode::Unauthorized,
                "caller Agent identity is required",
                false,
            ),
        ),
    }
}

/// The operation identity a durable-effect command needs.
pub fn required_operation_id(operation_id: &Option<String>) -> (r: Result<&str, ProtocolFailure>)
    ensures
        match *operation_id {
            Some(o) => r matches Ok(s) && s@ == o@,
            None => r matches Err(f) && plain_failure(
                f,
                ProtocolErrorCode::ValidationError,
                "operation_id is required"@,
                false,
            ),
        },
{
    match operation_id {
        Some(o) => Ok(o.as_str()),
        None => Err(ProtocolFailure::validation("operation_id is required")),
    }
}

/// A terminal Operation outcome is consistent: a completed Operation
/// carries no failure, any other carries one with a non-blank code.
pub open spec fn operation_outcome_problem(command: FinishOperationCommand) -> Option<Seq<char>> {
    match (command.status, command.failure) {
        (OperationTerminalStatus::Completed, None) => None,
        (OperationTerminalStatus::Completed, Some(_)) => Some(
            "completed Operation must not include failure"@,
        ),
        (_, Some(failure)) => if is_blank(failure.code@) {
            Some("operation failure code must not be empty"@)
        } else {
            None
        },
        (_, None) => Some("non-completed Operation must include failure"@),
    }
}

/// A finished Operation reports a failure exactly when it did not
/// complete: a completed Operation carries none, and any other outcome
/// carries one with a non-blank code.
pub proof fn lemma_failures_accompany_unfinished_outcomes(command: FinishOperationCommand)
    ensures
        command.status == OperationTerminalStatus::Completed ==> (operation_outcome_problem(command)
            is None <==> command.failure is None),
        command.status != OperationTerminalStatus::Completed ==> (operation_outcome_problem(command)
            is None <==> (command.failure is Some && !is_blank(command.failure->0.code@))),
{
}

pub fn validate_operation_outcome_command(command: &FinishOperationCommand) -> (r: Result<
    (),
    ProtocolFailure,
>)
    ensures
        r is Ok <==> operation_outcome_problem(*command) is None,
        operation_outcome_problem(*command) matches Some(m) ==> (r matches Err(f) && plain_failure(
            f,
            ProtocolErrorCode::ValidationError,
            m,
            false,
        )),
{
    match (&command.status, &command.failure) {
        (OperationTerminalStatus::Completed, None) => Ok(()),
        (OperationTerminalStatus::Completed, Some(_)) => Err(
            ProtocolFailure::validation("completed Operation must not include failure"),
        ),
        (_, Some(failure)) => {
            if str_is_blank(failure.code.as_str()) {
                Err(ProtocolFailure::validation("operation failure code must not be empty"))
            } else {
                Ok(())
            }
        },
        (_, None) => Err(ProtocolFailure::validation("non-completed Operation must include failure")),
    }
}

/// The Execution lifecycle moves the protocol lets a caller request.
pub open spec fn execution_transition_allowed(current: Seq<char>, next: Seq<char>) -> bool {
    if current == "created"@ {
        next == "running"@ || next == "paused"@ || next == "failed"@ || next == "interrupted"@
            || next == "unknown"@
    } else if current == "running"@ {
        next == "running"@ || next == "paused"@ || next == "completed"@ || next == "failed"@ || next
            == "interrupted"@ || next == "unknown"@
    } else if current == "paused"@ {
        next == "paused"@ || next == "running"@ || next == "completed"@ || next == "failed"@ || next
            == "interrupted"@ || next == "unknown"@
    } else {
        false
    }
}

fn is_one_of(value: &str, a: &str, b: &str, c: &str, d: &str, e: &str, f: &str) -> (r: bool)
    ensures
        r == (value@ == a@ || value@ == b@ || value@ == c@ || value@ == d@ || value@ == e@ || value@
            == f@),
{
    str_equal(value, a) || str_equal(value, b) || str_equal(value, c) || str_equal(value, d)
        || str_equal(value, e) || str_equal(value, f)
}

pub fn protocol_execution_transition_allowed(current: &str, next: &str) -> (r: bool)
    ensures
        r == execution_transition_allowed(current@, next@),
{
    if str_equal(current, "created") {
        is_one_of(next, "running", "paused", "failed", "interrupted", "unknown", "unknown")
    } else if str_equal(current, "running") {
        is_one_of(next, "running", "paused", "completed", "failed", "interrupted", "unknown")
    } else if str_equal(current, "paused") {
        is_one_of(next, "paused", "running", "completed", "failed", "interrupted", "unknown")
    } else {
        false
    }
}



/// The lifecycle states an Execution can be in.
pub open spec fn lifecycle_state(s: Seq<char>) -> bool {
    s == "created"@ || s == "running"@ || s == "paused"@ || s == "completed"@ || s == "failed"@
        || s == "interrupted"@ || s == "unknown"@
}

/// A live Execution can be moved on: from `running` or `paused` every
/// lifecycle state but `created` may be requested (in particular a running
/// Execution may complete), and from `created` every one but `created` and
/// `completed` (an Execution runs before it completes).
pub proof fn lemma_live_executions_may_move_on(current: Seq<char>, next: Seq<char>)
    requires
        lifecycle_state(next),
        next != "created"@,
    ensures
        (current == "running"@ || current == "paused"@) ==> execution_transition_allowed(current, next),
        current == "created"@ ==> (execution_transition_allowed(current, next) <==> next
            != "completed"@),
{
    reveal_strlit("created");
    reveal_strlit("running");
    reveal_strlit("paused");
    reveal_strlit("completed");
    reveal_strlit("failed");
    reveal_strlit("interrupted");
    reveal_strlit("unknown");
    assert("running"@[0] != "created"@[0]);
    assert("paused"@.len() != "created"@.len() && "paused"@.len() != "running"@.len());
    assert("completed"@.len() != "running"@.len() && "completed"@.len() != "paused"@.len()
        && "completed"@.len() != "failed"@.len() && "completed"@.len() != "interrupted"@.len()
        && "completed"@.len() != "unknown"@.len());
    if current == "running"@ {
        assert(current[0] != "created"@[0]);
    }
    if current == "paused"@ {
        assert(current.len() != "created"@.len() && current.len() != "running"@.len());
    }
    if next == "completed"@ {
        assert(next.len() != "running"@.len() && next.len() != "paused"@.len() && next.len()
            != "failed"@.len() && next.len() != "interrupted"@.len() && next.len()
            != "unknown"@.len());
    }
}

/// The states an Execution ends in.
pub open spec fn execution_state_terminal(state: Seq<char>) -> bool {
    state == "completed"@ || state == "failed"@ || state == "interrupted"@ || state == "unknown"@
}

/// An ended Execution stays ended: no transition leaves a terminal state,
/// and no transition leads back to `created`.
pub proof fn lemma_terminal_execution_states_are_final(current: Seq<char>, next: Seq<char>)
    ensures
        execution_state_terminal(current) ==> !execution_transition_allowed(current, next),
        !execution_transition_allowed(current, "created"@),
{
    reveal_strlit("created");
    reveal_strlit("running");
    reveal_strlit("paused");
    reveal_strlit("completed");
    reveal_strlit("failed");
    reveal_strlit("interrupted");
    reveal_strlit("unknown");
    assert("created"@[0] != "running"@[0] && "created"@.len() != "paused"@.len()
        && "created"@.len() != "completed"@.len() && "created"@[0] != "failed"@[0]
        && "created"@.len() != "interrupted"@.len() && "created"@[0] != "unknown"@[0]);
    if execution_state_terminal(current) {
        assert(current.len() != "created"@.len() || current[0] != "created"@[0]);
        assert(current.len() != "running"@.len() || current[0] != "running"@[0]);
        assert(current.len() != "paused"@.len() || current[0] != "paused"@[0]);
    }
}

impl LeaseAuthority {
    pub fn from_token(value: LeaseToken) -> (r: LeaseAuthority)
        ensures
            r.workspace_id == value.workspace_id,
            r.agent_id == value.agent_id,
            r.epoch == value.epoch,
            r.expires_at_ms == value.expires_at_ms,
    {
        LeaseAuthority {
            workspace_id: value.workspace_id,
            agent_id: value.agent_id,
            epoch: value.epoch,
            expires_at_ms: value.expires_at_ms,
        }
    }

    /// The lease token a mutation presents for this authority.
    pub fn to_token(&self) -> (r: LeaseToken)
        ensures
            r.workspace_id == self.workspace_id,
            r.agent_id == self.agent_id,
            r.epoch == self.epoch,
            r.expires_at_ms == self.expires_at_ms,
    {
        LeaseToken {
            workspace_id: self.workspace_id.clone(),
            agent_id: self.agent_id.clone(),
            epoch: self.epoch,
            expires_at_ms: self.expires_at_ms,
        }
    }
}

impl AgentResource {
    /// An Agent as the protocol shows it: its provider is its metadata.
    pub fn from_identity(value: &AgentIdentity) -> (r: AgentResource)
        ensures
            r.agent_id == value.agent_id,
            r.provider_metadata == Some(value.provider),
            r.display_name == value.display_name,
            r.created_at == value.created_at,
    {
        AgentResource {
            agent_id: value.agent_id.clone(),
            provider_metadata: Some(value.provider.clone()),
            display_name: clone_opt(&value.display_name),
            created_at: value.created_at.clone(),
        }
    }
}

impl TaskResource {
    pub fn from_record(value: &TaskRecord) -> (r: TaskResource)
        ensures
            r.task_id == value.task_id,
            r.project_id == value.project_id,
            r.goal_ref == value.goal,
            r.context_ref == value.context_ref,
            r.state == value.state,
            r.revision == value.revision,
            r.created_at == value.created_at,
            r.updated_at == value.updated_at,
    {
        TaskResource {
            task_id: value.task_id.clone(),
            project_id: value.project_id.clone(),
            goal_ref: value.goal.clone(),
            context_ref: clone_opt(&value.context_ref),
            state: value.state.clone(),
            revision: value.revision,
            created_at: value.created_at.clone(),
            updated_at: value.updated_at.clone(),
        }
    }
}

impl ExecutionResource {
    pub fn from_record(value: &ExecutionRecord) -> (r: ExecutionResource)
        ensures
            r.execution_id == value.execution_id,
            r.task_id == value.task_id,
            r.agent_id == value.agent_id,
            r.project_id == value.project_id,
            r.parent_execution_id == value.parent_execution_id,
            r.workspace_id == value.workspace_id,
            r.base_version_id == value.base_version_id,
            r.current_version_id == value.current_version_id,
            r.state == value.state,
            r.outcome_code == value.outcome,
            r.revision == value.revision,
            r.created_at == value.created_at,
            r.updated_at == value.updated_at,
    {
        ExecutionResource {
            execution_id: value.execution_id.clone(),
            task_id: value.task_id.clone(),
            agent_id: value.agent_id.clone(),
            project_id: value.project_id.clone(),
            parent_execution_id: clone_opt(&value.parent_execution_id),
            workspace_id: clone_opt(&value.workspace_id),
            base_version_id: clone_opt(&value.base_version_id),
            current_version_id: clone_opt(&value.current_version_id),
            state: value.state.clone(),
            outcome_code: clone_opt(&value.outcome),
            revision: value.revision,
            created_at: value.created_at.clone(),
            updated_at: value.updated_at.clone(),
        }
    }
}

impl WorkspaceResource {
    /// A workspace as the protocol shows it: its status is its state.
    pub fn from_view(value: &WorkspaceView) -> (r: WorkspaceResource)
        ensures
            r.workspace_id == value.workspace_id,
            r.project_id == value.project_id,
            r.branch_ref == value.branch_ref,
            r.head == value.head,
            r.version_head_id == value.version_head_id,
            r.environment_id == value.environment_id,
            r.state == value.status,
            r.revision == value.revision,
            r.created_at == value.created_at,
            r.updated_at == value.updated_at,
    {
        WorkspaceResource {
            workspace_id: value.workspace_id.clone(),
            project_id: value.project_id.clone(),
            branch_ref: clone_opt(&value.branch_ref),
            head: clone_opt(&value.head),
            version_head_id: clone_opt(&value.version_head_id),
            environment_id: clone_opt(&value.environment_id),
            state: value.status.clone(),
            revision: value.revision,
            created_at: value.created_at.clone(),
            updated_at: value.updated_at.clone(),
        }
    }
}

impl VersionResource {
    pub fn from_record(value: &VersionRecord) -> (r: VersionResource)
        ensures
            r.version_id == value.version_id,
            r.workspace_id == value.workspace_id,
            r.project_id == value.project_id,
            r.snapshot_id == value.snapshot_id,
            r.creation_operation_id == value.creation_operation_id,
            r.environment_id == value.environment_id,
            r.parent_version_id == value.parent_version_id,
            r.created_at == value.created_at,
    {
        VersionResource {
            version_id: value.version_id.clone(),
            workspace_id: value.workspace_id.clone(),
            project_id: value.project_id.clone(),
            snapshot_id: value.snapshot_id.clone(),
            creation_operation_id: value.creation_operation_id.clone(),
            environment_id: clone_opt(&value.environment_id),
            parent_version_id: clone_opt(&value.parent_version_id),
            created_at: value.created_at.clone(),
        }
    }
}

impl SnapshotResource {
    pub fn from_view(value: &SnapshotView) -> (r: SnapshotResource)
        ensures
            r.snapshot_id == value.snapshot_id,
            r.root_digest == value.root_digest,
            r.workspace_id == value.workspace_id,
            r.project_id == value.project_id,
            r.environment_id == value.environment_id,
            r.file_count == value.file_count,
            r.total_bytes == value.total_bytes,
            r.created_at == value.created_at,
    {
        SnapshotResource {
            snapshot_id: value.snapshot_id.clone(),
            root_digest: value.root_digest.clone(),
            workspace_id: value.workspace_id.clone(),
            project_id: value.project_id.clone(),
            environment_id: clone_opt(&value.environment_id),
            file_count: value.file_count,
            total_bytes: value.total_bytes,
            created_at: value.created_at.clone(),
        }
    }
}

/// `r` shows the Checkpoint `c`.
pub open spec fn checkpoint_shown(r: CheckpointResource, c: CheckpointRecord) -> bool {
    &&& r.checkpoint_id == c.checkpoint_id
    &&& r.task_id == c.task_id
    &&& r.execution_id == c.execution_id
    &&& r.workspace_id == c.workspace_id
    &&& r.version_id == c.version_id
    &&& r.source_operation_id == c.operation_id
    &&& r.reason_code == c.reason
    &&& r.actor_agent_id == c.actor_agent_id
    &&& r.request_id == c.request_id
    &&& r.created_at == c.created_at
}

impl CheckpointResource {
    pub fn from_record(value: &CheckpointRecord) -> (r: CheckpointResource)
        ensures
            checkpoint_shown(r, *value),
    {
        CheckpointResource {
            checkpoint_id: value.checkpoint_id.clone(),
            task_id: value.task_id.clone(),
            execution_id: value.execution_id.clone(),
            workspace_id: value.workspace_id.clone(),
            version_id: value.version_id.clone(),
            source_operation_id: clone_opt(&value.operation_id),
            reason_code: value.reason.clone(),
            actor_agent_id: value.actor_agent_id.clone(),
            request_id: value.request_id.clone(),
            created_at: value.created_at.clone(),
        }
    }
}

/// `r` shows the Handoff `h`.
pub open spec fn handoff_shown(r: HandoffResource, h: HandoffRecord) -> bool {
    &&& r.handoff_id == h.handoff_id
    &&& r.task_id == h.task_id
    &&& r.from_execution_id == h.from_execution_id
    &&& r.to_execution_id == h.to_execution_id
    &&& r.source_version_id == h.source_version_id
    &&& r.checkpoint_id == h.checkpoint_id
    &&& r.reason_code == h.reason
    &&& r.actor_agent_id == h.actor_agent_id
    &&& r.request_id == h.request_id
    &&& r.state == h.status
    &&& r.created_at == h.created_at
    &&& r.updated_at == h.updated_at
}

impl HandoffResource {
    pub fn from_record(value: &HandoffRecord) -> (r: HandoffResource)
        ensures
            handoff_shown(r, *value),
    {
        HandoffResource {
            handoff_id: value.handoff_id.clone(),
            task_id: value.task_id.clone(),
            from_execution_id: value.from_execution_id.clone(),
            to_execution_id: value.to_execution_id.clone(),
            source_version_id: clone_opt(&value.source_version_id),
            checkpoint_id: clone_opt(&value.checkpoint_id),
            reason_code: value.reason.clone(),
            actor_agent_id: value.actor_agent_id.clone(),
            request_id: value.request_id.clone(),
            state: value.status.clone(),
            created_at: value.created_at.clone(),
            updated_at: value.updated_at.clone(),
        }
    }
}

impl ResumeResource {
    pub fn from_record(value: &ResumeRecord) -> (r: ResumeResource)
        ensures
            r.execution_id == value.execution_id,
            r.task_id == value.task_id,
            r.agent_id == value.agent_id,
            r.source_version_id == value.source_version_id,
            r.checkpoint_id == value.checkpoint_id,
            r.request_id == value.request_id,
            r.created_at == value.created_at,
    {
        ResumeResource {
            execution_id: value.execution_id.clone(),
            task_id: value.task_id.clone(),
            agent_id: value.agent_id.clone(),
            source_version_id: value.source_version_id.clone(),
            checkpoint_id: clone_opt(&value.checkpoint_id),
            request_id: value.request_id.clone(),
            created_at: value.created_at.clone(),
        }
    }
}

/// `r` shows the Operation `o`, associated with `execution_id`.
pub open spec fn operation_shown(
    r: OperationResource,
    o: OperationRecord,
    execution_id: Option<String>,
) -> bool {
    &&& r.operation_id == o.operation_id
    &&& r.execution_id == execution_id
    &&& r.request_id == o.request_id
    &&& r.agent_id == o.agent_id
    &&& r.workspace_id == o.workspace_id
    &&& r.action == o.action
    &&& r.state == o.lifecycle_status
    &&& r.recording_state == o.recording_status
    &&& r.failure_code == o.error_code
    &&& r.started_at == o.started_at
    &&& r.finished_at == o.finished_at
}

impl OperationResource {
    pub fn from_record(value: &OperationRecord, execution_id: Option<String>) -> (r:
        OperationResource)
        ensures
            operation_shown(r, *value, execution_id),
    {
        OperationResource {
            operation_id: value.operation_id.clone(),
            execution_id,
            request_id: value.request_id.clone(),
            agent_id: value.agent_id.clone(),
            workspace_id: clone_opt(&value.workspace_id),
            action: value.action.clone(),
            state: value.lifecycle_status.clone(),
            recording_state: value.recording_status.clone(),
            failure_code: clone_opt(&value.error_code),
            started_at: value.started_at.clone(),
            finished_at: clone_opt(&value.finished_at),
        }
    }
}

/// `r` shows the lease `v`: present exactly when the lease has an owner.
pub open spec fn lease_shown(r: Option<LeaseResource>, v: LeaseView) -> bool {
    match v.agent_id {
        Some(agent_id) => r matches Some(l) && l.authority.workspace_id == v.workspace_id
            && l.authority.agent_id == agent_id && l.authority.epoch == v.epoch
            && l.authority.expires_at_ms == v.expires_at_ms && l.active == v.active,
        None => r is None,
    }
}

/// The lease resource of a lease view; an unowned lease has none.
pub fn lease_resource_from_view(value: &LeaseView) -> (r: Option<LeaseResource>)
    ensures
        lease_shown(r, *value),
{
    match &value.agent_id {
        None => None,
        Some(agent_id) => Some(
            LeaseResource {
                authority: LeaseAuthority {
                    workspace_id: value.workspace_id.clone(),
                    agent_id: agent_id.clone(),
                    epoch: value.epoch,
                    expires_at_ms: value.expires_at_ms,
                },
                active: value.active,
            },
        ),
    }
}

/// The Checkpoints of a Task that an Execution created.
pub open spec fn execution_checkpoints(cs: Seq<CheckpointRecord>, execution_id: Seq<char>) -> Seq<
    CheckpointRecord,
> {
    cs.filter(|c: CheckpointRecord| c.execution_id@ == execution_id)
}

/// The Handoffs of a Task that leave or reach an Execution.
pub open spec fn execution_handoffs(hs: Seq<HandoffRecord>, execution_id: Seq<char>) -> Seq<
    HandoffRecord,
> {
    hs.filter(
        |h: HandoffRecord| h.from_execution_id@ == execution_id || h.to_execution_id@ == execution_id,
    )
}

impl ExecutionInspection {
    /// Everything the protocol shows of one Execution: its Agent, Task and
    /// own row, its workspace with its lease, its Versions, the Checkpoints
    /// it created and the Handoffs that touch it (in stored order), its
    /// Resume, and its Operations.
    pub fn from_state(state: &StateView, operations: &Vec<OperationRecord>) -> (r:
        ExecutionInspection)
        ensures
            r.agent.agent_id == state.agent.agent_id,
            r.task.task_id == state.task.task_id,
            r.execution.execution_id == state.execution.execution_id,
            r.execution.state == state.execution.state,
            r.execution.revision == state.execution.revision,
            match state.workspace {
                Some(w) => r.workspace matches Some(i) && i.workspace.workspace_id == w.workspace_id
                    && i.workspace.revision == w.revision && match state.lease {
                    Some(l) => lease_shown(i.lease, l),
                    None => i.lease is None,
                },
                None => r.workspace is None,
            },
            match state.base_version {
                Some(v) => r.base_version matches Some(b) && b.version_id == v.version_id,
                None => r.base_version is None,
            },
            match state.current_version {
                Some(v) => r.current_version matches Some(c) && c.version_id == v.version_id,
                None => r.current_version is None,
            },
            ({
                let kept = execution_checkpoints(
                    state.checkpoints@,
                    state.execution.execution_id@,
                );
                &&& r.checkpoints@.len() == kept.len()
                &&& forall|i: int|
                    0 <= i < kept.len() ==> checkpoint_shown(#[trigger] r.checkpoints@[i], kept[i])
            }),
            ({
                let kept = execution_handoffs(state.handoffs@, state.execution.execution_id@);
                &&& r.handoffs@.len() == kept.len()
                &&& forall|i: int|
                    0 <= i < kept.len() ==> handoff_shown(#[trigger] r.handoffs@[i], kept[i])
            }),
            match state.resume {
                Some(v) => r.resume matches Some(x) && x.execution_id == v.execution_id,
                None => r.resume is None,
            },
            r.operations@.len() == operations@.len(),
            forall|i: int|
                0 <= i < operations@.len() ==> operation_shown(
                    #[trigger] r.operations@[i],
                    operations@[i],
                    Some(state.execution.execution_id),
                ),
    {
        let execution_id = state.execution.execution_id.as_str();
        let workspace = match &state.workspace {
            Some(w) => {
                let lease = match &state.lease {
                    Some(l) => lease_resource_from_view(l),
                    None => None,
                };
                Some(WorkspaceInspection { workspace: WorkspaceResource::from_view(w), lease })
            },
            None => None,
        };
        let base_version = match &state.base_version {
            Some(v) => Some(VersionResource::from_record(v)),
            None => None,
        };
        let current_version = match &state.current_version {
            Some(v) => Some(VersionResource::from_record(v)),
            None => None,
        };
        let mut checkpoints: Vec<CheckpointResource> = Vec::new();
        let mut i: usize = 0;
        while i < state.checkpoints.len()
            invariant
                execution_id@ == state.execution.execution_id@,
                i <= state.checkpoints@.len(),
                ({
                    let kept = execution_checkpoints(
                        state.checkpoints@.take(i as int),
                        execution_id@,
                    );
                    &&& checkpoints@.len() == kept.len()
                    &&& forall|k: int|
                        0 <= k < kept.len() ==> checkpoint_shown(
                            #[trigger] checkpoints@[k],
                            kept[k],
                        )
                }),
            decreases state.checkpoints@.len() - i,
        {
            let c = &state.checkpoints[i];
            proof {
                let t = state.checkpoints@.take(i as int);
                assert(state.checkpoints@.take(i + 1) =~= t.push(state.checkpoints@[i as int]));
                t.lemma_filter_push(
                    state.checkpoints@[i as int],
                    |c: CheckpointRecord| c.execution_id@ == execution_id@,
                );
            }
            if str_equal(c.execution_id.as_str(), execution_id) {
                checkpoints.push(CheckpointResource::from_record(c));
            }
            i = i + 1;
        }
        assert(state.checkpoints@.take(state.checkpoints@.len() as int) =~= state.checkpoints@);
        let mut handoffs: Vec<HandoffResource> = Vec::new();
        let mut j: usize = 0;
        while j < state.handoffs.len()
            invariant
                execution_id@ == state.execution.execution_id@,
                j <= state.handoffs@.len(),
                ({
                    let kept = execution_handoffs(state.handoffs@.take(j as int), execution_id@);
                    &&& handoffs@.len() == kept.len()
                    &&& forall|k: int|
                        0 <= k < kept.len() ==> handoff_shown(#[trigger] handoffs@[k], kept[k])
                }),
            decreases state.handoffs@.len() - j,
        {
            let h = &state.handoffs[j];
            proof {
                let t = state.handoffs@.take(j as int);
                assert(state.handoffs@.take(j + 1) =~= t.push(state.handoffs@[j as int]));
                t.lemma_filter_push(
                    state.handoffs@[j as int],
                    |h: HandoffRecord|
                        h.from_execution_id@ == execution_id@ || h.to_execution_id@
                            == execution_id@,
                );
            }
            if str_equal(h.from_execution_id.as_str(), execution_id) || str_equal(
                h.to_execution_id.as_str(),
                execution_id,
            ) {
                handoffs.push(HandoffResource::from_record(h));
            }
            j = j + 1;
        }
        assert(state.handoffs@.take(state.handoffs@.len() as int) =~= state.handoffs@);
        let mut shown: Vec<OperationResource> = Vec::new();
        let mut k: usize = 0;
        while k < operations.len()
            invariant
                k <= operations@.len(),
                shown@.len() == k,
                forall|m: int|
                    0 <= m < k ==> operation_shown(
                        #[trigger] shown@[m],
                        operations@[m],
                        Some(state.execution.execution_id),
                    ),
            decreases operations@.len() - k,
        {
            shown.push(
                OperationResource::from_record(
                    &operations[k],
                    Some(state.execution.execution_id.clone()),
                ),
            );
            k = k + 1;
        }
        let resume = match &state.resume {
            Some(v) => Some(ResumeResource::from_record(v)),
            None => None,
        };
        ExecutionInspection {
            agent: AgentResource::from_identity(&state.agent),
            task: TaskResource::from_record(&state.task),
            execution: ExecutionResource::from_record(&state.execution),
            workspace,
            base_version,
            current_version,
            checkpoints,
            handoffs,
            resume,
            operations: shown,
        }
    }
}



/// The capabilities `hello` advertises: commands.
pub open spec fn command_names() -> Seq<Seq<char>> {
    seq![
        "register_agent"@,
        "create_task"@,
        "create_workspace"@,
        "create_execution"@,
        "start_execution"@,
        "pause_execution"@,
        "complete_execution"@,
        "fail_execution"@,
        "interrupt_execution"@,
        "acquire_workspace_lease"@,
        "renew_workspace_lease"@,
        "release_workspace_lease"@,
        "publish_version"@,
        "set_execution_current_version"@,
        "create_checkpoint"@,
        "resume_from_checkpoint"@,
        "create_handoff"@,
        "materialize_version"@,
        "start_operation"@,
        "finish_operation"@,
    ]
}

/// The capabilities `hello` advertises: queries.
pub open spec fn query_names() -> Seq<Seq<char>> {
    seq![
        "hello"@,
        "get_agent"@,
        "get_task"@,
        "get_execution"@,
        "get_workspace"@,
        "get_version"@,
        "get_checkpoint"@,
        "get_handoff"@,
        "get_operation"@,
        "resolve_operation"@,
        "inspect_execution"@,
        "list_checkpoints"@,
        "list_handoffs"@,
        "diff_workspace_version"@,
    ]
}

pub open spec fn texts(v: Seq<String>) -> Seq<Seq<char>> {
    v.map_values(|s: String| s@)
}

fn push_text(out: &mut Vec<String>, s: &str)
    ensures
        texts(final(out)@) == texts(old(out)@).push(s@),
{
    out.push(text_of(s));
    assert(texts(final(out)@) =~= texts(old(out)@).push(s@));
}

/// The answer to `hello`: the protocol version, every command and query,
/// and the acknowledgement and neutrality promises.
pub fn hello_result() -> (r: HelloResult)
    ensures
        texts(r.protocol_versions@) == seq![EXTERNAL_AGENT_PROTOCOL_VERSION@],
        texts(r.commands@) == command_names(),
        texts(r.queries@) == query_names(),
        r.mutation_acknowledgement@ == "durable_or_error"@,
        r.provider_neutral,
        r.transport_neutral,
{
    let mut versions: Vec<String> = Vec::new();
    push_text(&mut versions, EXTERNAL_AGENT_PROTOCOL_VERSION);
    let mut commands: Vec<String> = Vec::new();
    push_text(&mut commands, "register_agent");
    push_text(&mut commands, "create_task");
    push_text(&mut commands, "create_workspace");
    push_text(&mut commands, "create_execution");
    push_text(&mut commands, "start_execution");
    push_text(&mut commands, "pause_execution");
    push_text(&mut commands, "complete_execution");
    push_text(&mut commands, "fail_execution");
    push_text(&mut commands, "interrupt_execution");
    push_text(&mut commands, "acquire_workspace_lease");
    push_text(&mut commands, "renew_workspace_lease");
    push_text(&mut commands, "release_workspace_lease");
    push_text(&mut commands, "publish_version");
    push_text(&mut commands, "set_execution_current_version");
    push_text(&mut commands, "create_checkpoint");
    push_text(&mut commands, "resume_from_checkpoint");
    push_text(&mut commands, "create_handoff");
    push_text(&mut commands, "materialize_version");
    push_text(&mut commands, "start_operation");
    push_text(&mut commands, "finish_operation");
    let mut queries: Vec<String> = Vec::new();
    push_text(&mut queries, "hello");
    push_text(&mut queries, "get_agent");
    push_text(&mut queries, "get_task");
    push_text(&mut queries, "get_execution");
    push_text(&mut queries, "get_workspace");
    push_text(&mut queries, "get_version");
    push_text(&mut queries, "get_checkpoint");
    push_text(&mut queries, "get_handoff");
    push_text(&mut queries, "get_operation");
    push_text(&mut queries, "resolve_operation");
    push_text(&mut queries, "inspect_execution");
    push_text(&mut queries, "list_checkpoints");
    push_text(&mut queries, "list_handoffs");
    push_text(&mut queries, "diff_workspace_version");
    assert(texts(commands@) =~= command_names());
    assert(texts(queries@) =~= query_names());
    assert(texts(versions@) =~= seq![EXTERNAL_AGENT_PROTOCOL_VERSION@]);
    HelloResult {
        protocol_versions: versions,
        commands,
        queries,
        mutation_acknowledgement: text_of("durable_or_error"),
        provider_neutral: true,
        transport_neutral: true,
    }
}

/// The registration a `register_agent` call asks for: an Agent registers
/// only its own asserted identity, and an unnamed provider is recorded as
/// `unspecified`.
pub fn register_agent_request(caller: &str, command: RegisterAgentCommand, issued_at: String) -> (r:
    Result<RegisterAgentRequest, ProtocolFailure>)
    ensures
        caller@ != command.agent_id@ ==> (r matches Err(f) && plain_failure(
            f,
            ProtocolErrorCode::Forbidden,
            "an Agent may register only its own asserted identity"@,
            false,
        )),
        caller@ == command.agent_id@ ==> (r matches Ok(q) && q.agent_id == command.agent_id
            && q.provider@ == match command.provider_metadata {
            Some(p) => p@,
            None => "unspecified"@,
        } && q.display_name == command.display_name && q.created_at == issued_at),
{
    if !str_equal(caller, command.agent_id.as_str()) {
        return Err(ProtocolFailure::forbidden("an Agent may register only its own asserted identity"));
    }
    let provider = match command.provider_metadata {
        Some(p) => p,
        None => text_of("unspecified"),
    };
    Ok(
        RegisterAgentRequest {
            agent_id: command.agent_id,
            provider,
            display_name: command.display_name,
            created_at: issued_at,
        },
    )
}

/// A caller must be a registered Agent; `found` is the Agent stored under
/// its identity.
pub fn require_registered_agent(agent_id: &str, found: &Option<AgentIdentity>) -> (r: Result<
    (),
    ProtocolFailure,
>)
    ensures
        r is Ok <==> found is Some,
        found is None ==> (r matches Err(f) && entity_failure(
            f,
            ProtocolErrorCode::Unauthorized,
            "caller Agent identity is not registered"@,
            false,
            "agent"@,
            agent_id@,
        )),
{
    if found.is_none() {
        return Err(
            ProtocolFailure::new(
                ProtocolErrorCode::Unauthorized,
                "caller Agent identity is not registered",
                false,
            ).with_entity("agent", agent_id),
        );
    }
    Ok(())
}

/// The caller owns the Execution stored under `execution_id` (`found`).
pub fn require_execution_owner(
    caller: &str,
    execution_id: &str,
    found: &Option<ExecutionRecord>,
) -> (r: Result<(), ProtocolFailure>)
    ensures
        r is Ok <==> (*found matches Some(e) && e.agent_id@ == caller@),
        found is None ==> (r matches Err(f) && not_found_failure(f, "execution"@, execution_id@)),
        (*found matches Some(e) && e.agent_id@ != caller@) ==> (r matches Err(f) && entity_failure(
            f,
            ProtocolErrorCode::Forbidden,
            "caller does not own the target Execution"@,
            false,
            "execution"@,
            execution_id@,
        )),
{
    match found {
        None => Err(ProtocolFailure::not_found("execution", execution_id)),
        Some(e) => {
            if !str_equal(e.agent_id.as_str(), caller) {
                return Err(
                    ProtocolFailure::forbidden("caller does not own the target Execution").with_entity(
                        "execution",
                        execution_id,
                    ),
                );
            }
            Ok(())
        },
    }
}

/// The caller's Execution is bound to the target workspace.
pub fn require_execution_workspace(
    caller: &str,
    execution_id: &str,
    workspace_id: &str,
    found: &Option<ExecutionRecord>,
) -> (r: Result<(), ProtocolFailure>)
    ensures
        r is Ok <==> (*found matches Some(e) && e.agent_id@ == caller@ && opt_text(e.workspace_id)
            == Some(workspace_id@)),
        found is None ==> (r matches Err(f) && not_found_failure(f, "execution"@, execution_id@)),
        (*found matches Some(e) && e.agent_id@ != caller@) ==> (r matches Err(f) && entity_failure(
            f,
            ProtocolErrorCode::Forbidden,
            "caller does not own the target Execution"@,
            false,
            "execution"@,
            execution_id@,
        )),
        (*found matches Some(e) && e.agent_id@ == caller@ && opt_text(e.workspace_id) != Some(
            workspace_id@,
        )) ==> (r matches Err(f) && entity_failure(
            f,
            ProtocolErrorCode::Forbidden,
            "Execution does not own the target Workspace"@,
            false,
            "workspace"@,
            workspace_id@,
        )),
{
    require_execution_owner(caller, execution_id, found)?;
    match found {
        Some(e) => {
            if !opt_is(&e.workspace_id, workspace_id) {
                return Err(
                    ProtocolFailure::forbidden(
                        "Execution does not own the target Workspace",
                    ).with_entity("workspace", workspace_id),
                );
            }
            Ok(())
        },
        None => Err(ProtocolFailure::not_found("execution", execution_id)),
    }
}

/// The outcome of a lifecycle request: the Execution already is in the
/// target state with the same outcome (a retry), or it is at the expected
/// revision and may make the move.
pub open spec fn transition_acceptable(
    e: ExecutionRecord,
    expected_revision: i64,
    next_state: Seq<char>,
    outcome_code: Option<Seq<char>>,
) -> bool {
    ||| (e.state@ == next_state && opt_text(e.outcome) == outcome_code)
    ||| (e.revision == expected_revision && execution_transition_allowed(e.state@, next_state))
}

/// Check a lifecycle request against the caller's Execution.
pub fn require_execution_transition(
    caller: &str,
    execution_id: &str,
    expected_revision: i64,
    next_state: &str,
    outcome_code: &Option<String>,
    found: &Option<ExecutionRecord>,
) -> (r: Result<(), ProtocolFailure>)
    ensures
        r is Ok <==> (expected_revision >= 0 && (*found matches Some(e) && e.agent_id@ == caller@
            && transition_acceptable(e, expected_revision, next_state@, opt_text(*outcome_code)))),
        expected_revision < 0 ==> (r matches Err(f) && plain_failure(
            f,
            ProtocolErrorCode::ValidationError,
            "expected Execution revision must not be negative"@,
            false,
        )),
        expected_revision >= 0 ==> match *found {
            None => r matches Err(f) && not_found_failure(f, "execution"@, execution_id@),
            Some(e) => {
                let retry = e.state@ == next_state@ && opt_text(e.outcome) == opt_text(
                    *outcome_code,
                );
                &&& e.agent_id@ != caller@ ==> (r matches Err(f) && entity_failure(
                    f,
                    ProtocolErrorCode::Forbidden,
                    "caller does not own the target Execution"@,
                    false,
                    "execution"@,
                    execution_id@,
                ))
                &&& (e.agent_id@ == caller@ && !retry && e.revision != expected_revision) ==> (
                r matches Err(f) && revision_failure(
                    f,
                    "execution"@,
                    execution_id@,
                    expected_revision,
                    e.revision,
                ))
                &&& (e.agent_id@ == caller@ && !retry && e.revision == expected_revision
                    && !execution_transition_allowed(e.state@, next_state@)) ==> (r matches Err(f)
                    && entity_failure(
                    f,
                    ProtocolErrorCode::InvalidState,
                    "Execution lifecycle transition is not allowed"@,
                    false,
                    "execution"@,
                    execution_id@,
                ))
            },
        },
{
    if expected_revision < 0 {
        return Err(ProtocolFailure::validation("expected Execution revision must not be negative"));
    }
    require_execution_owner(caller, execution_id, found)?;
    let e = match found {
        Some(e) => e,
        None => {
            return Err(ProtocolFailure::not_found("execution", execution_id));
        },
    };
    let same_outcome = match outcome_code {
        Some(code) => opt_is(&e.outcome, code.as_str()),
        None => e.outcome.is_none(),
    };
    if str_equal(e.state.as_str(), next_state) && same_outcome {
        return Ok(());
    }
    if e.revision != expected_revision {
        return Err(ProtocolFailure::revision("execution", execution_id, expected_revision, e.revision));
    }
    if !protocol_execution_transition_allowed(e.state.as_str(), next_state) {
        return Err(
            ProtocolFailure::new(
                ProtocolErrorCode::InvalidState,
                "Execution lifecycle transition is not allowed",
                false,
            ).with_entity("execution", execution_id),
        );
    }
    Ok(())
}

/// The workspace stored under `workspace_id` is at the expected revision.
pub fn require_workspace_revision(
    workspace_id: &str,
    expected_revision: i64,
    found: &Option<WorkspaceView>,
) -> (r: Result<(), ProtocolFailure>)
    ensures
        r is Ok <==> (expected_revision >= 0 && (*found matches Some(w) && w.revision
            == expected_revision)),
        expected_revision < 0 ==> (r matches Err(f) && plain_failure(
            f,
            ProtocolErrorCode::ValidationError,
            "expected Workspace revision must not be negative"@,
            false,
        )),
        expected_revision >= 0 ==> match *found {
            None => r matches Err(f) && not_found_failure(f, "workspace"@, workspace_id@),
            Some(w) => w.revision != expected_revision ==> (r matches Err(f) && revision_failure(
                f,
                "workspace"@,
                workspace_id@,
                expected_revision,
                w.revision,
            )),
        },
{
    if expected_revision < 0 {
        return Err(ProtocolFailure::validation("expected Workspace revision must not be negative"));
    }
    match found {
        None => Err(ProtocolFailure::not_found("workspace", workspace_id)),
        Some(w) => {
            if w.revision != expected_revision {
                return Err(
                    ProtocolFailure::revision("workspace", workspace_id, expected_revision, w.revision),
                );
            }
            Ok(())
        },
    }
}

/// Saturating `+ 1` of a revision.
pub open spec fn next_revision(revision: i64) -> int {
    if revision == i64::MAX {
        i64::MAX as int
    } else {
        revision + 1
    }
}

/// Revisions only move forward: the next revision is one more, and it
/// stays at the largest revision once there.
pub proof fn lemma_revisions_move_forward(revision: i64)
    ensures
        revision < i64::MAX ==> next_revision(revision) == revision + 1,
        next_revision(revision) >= revision,
        next_revision(revision) <= i64::MAX,
{
}

fn saturating_next(revision: i64) -> (r: i64)
    ensures
        r == next_revision(revision),
{
    if revision == i64::MAX {
        revision
    } else {
        revision + 1
    }
}

/// Check a request to select a Version as an Execution's current one:
/// revisions are not negative, the caller's Execution is bound to the
/// workspace, and both rows are at the expected revisions, or both already
/// moved one past them with this Version selected (a retry).
pub fn require_execution_version_revisions(
    caller: &str,
    execution_id: &str,
    workspace_id: &str,
    version_id: &str,
    expected_execution_revision: i64,
    expected_workspace_revision: i64,
    execution: &Option<ExecutionRecord>,
    workspace: &Option<WorkspaceView>,
) -> (r: Result<(), ProtocolFailure>)
    ensures
        r is Ok <==> {
            &&& expected_execution_revision >= 0
            &&& expected_workspace_revision >= 0
            &&& *execution matches Some(e) && e.agent_id@ == caller@ && opt_text(e.workspace_id)
                == Some(workspace_id@)
            &&& *workspace matches Some(w)
            &&& ({
                let e = execution->0;
                let w = workspace->0;
                ||| (opt_text(e.current_version_id) == Some(version_id@) && e.revision
                    == next_revision(expected_execution_revision) && w.revision == next_revision(
                    expected_workspace_revision,
                ))
                ||| (e.revision == expected_execution_revision && w.revision
                    == expected_workspace_revision)
            })
        },
        (expected_execution_revision < 0 || expected_workspace_revision < 0) ==> (r matches Err(f)
            && plain_failure(
            f,
            ProtocolErrorCode::ValidationError,
            "expected revision must not be negative"@,
            false,
        )),
        (expected_execution_revision >= 0 && expected_workspace_revision >= 0
            && execution is None) ==> (r matches Err(f) && not_found_failure(
            f,
            "execution"@,
            execution_id@,
        )),
        (expected_execution_revision >= 0 && expected_workspace_revision >= 0 && (
        *execution matches Some(e) && e.agent_id@ != caller@)) ==> (r matches Err(f) && entity_failure(
            f,
            ProtocolErrorCode::Forbidden,
            "caller does not own the target Execution"@,
            false,
            "execution"@,
            execution_id@,
        )),
        (expected_execution_revision >= 0 && expected_workspace_revision >= 0 && (
        *execution matches Some(e) && e.agent_id@ == caller@ && opt_text(e.workspace_id) == Some(
            workspace_id@,
        )) && workspace is None) ==> (r matches Err(f) && not_found_failure(
            f,
            "workspace"@,
            workspace_id@,
        )),
        r matches Err(f) ==> version_revisions_refusal(
            caller@,
            execution_id@,
            workspace_id@,
            expected_execution_revision,
            expected_workspace_revision,
            *execution,
            *workspace,
            f,
        ),
{
    if expected_execution_revision < 0 || expected_workspace_revision < 0 {
        return Err(ProtocolFailure::validation("expected revision must not be negative"));
    }
    require_execution_workspace(caller, execution_id, workspace_id, execution)?;
    let e = match execution {
        Some(e) => e,
        None => {
            return Err(ProtocolFailure::not_found("execution", execution_id));
        },
    };
    let w = match workspace {
        Some(w) => w,
        None => {
            return Err(ProtocolFailure::not_found("workspace", workspace_id));
        },
    };
    let exact_retry = opt_is(&e.current_version_id, version_id) && e.revision
        == saturating_next(expected_execution_revision) && w.revision
        == saturating_next(expected_workspace_revision);
    if exact_retry {
        return Ok(());
    }
    if e.revision != expected_execution_revision {
        return Err(
            ProtocolFailure::revision(
                "execution",
                execution_id,
                expected_execution_revision,
                e.revision,
            ),
        );
    }
    if w.revision != expected_workspace_revision {
        return Err(
            ProtocolFailure::revision(
                "workspace",
                workspace_id,
                expected_workspace_revision,
                w.revision,
            ),
        );
    }
    Ok(())
}

/// The presented lease authority is the caller's and is the stored lease
/// of its workspace as seen now: active, owned by the caller, same epoch
/// and expiry.
pub open spec fn lease_current(caller: Seq<char>, authority: LeaseAuthority, lease: LeaseView) -> bool {
    &&& lease.active
    &&& opt_text(lease.agent_id) == Some(caller)
    &&& lease.epoch == authority.epoch
    &&& lease.expires_at_ms == authority.expires_at_ms
}

/// Only the live lease of the caller at the presented epoch and expiry is
/// current: an inactive lease, another holder's lease, or a lease at
/// another epoch or expiry is not.
pub proof fn lemma_only_the_callers_live_lease_is_current(
    caller: Seq<char>,
    authority: LeaseAuthority,
    lease: LeaseView,
)
    ensures
        !lease.active ==> !lease_current(caller, authority, lease),
        opt_text(lease.agent_id) != Some(caller) ==> !lease_current(caller, authority, lease),
        lease.epoch != authority.epoch ==> !lease_current(caller, authority, lease),
        lease.expires_at_ms != authority.expires_at_ms ==> !lease_current(caller, authority, lease),
{
}

/// Check a presented lease authority against the lease stored for its
/// workspace (`found`, as seen at the host's time).
pub fn require_lease(caller: &str, authority: &LeaseAuthority, found: &Option<LeaseView>) -> (r:
    Result<(), ProtocolFailure>)
    ensures
        r is Ok <==> (authority.agent_id@ == caller@ && (*found matches Some(l) && lease_current(
            caller@,
            *authority,
            l,
        ))),
        r matches Err(f) ==> lease_failure(f, authority.workspace_id@),
{
    if !str_equal(authority.agent_id.as_str(), caller) {
        return Err(ProtocolFailure::lease(authority.workspace_id.as_str()));
    }
    match found {
        None => Err(ProtocolFailure::lease(authority.workspace_id.as_str())),
        Some(l) => {
            if !l.active || !opt_is(&l.agent_id, caller) || l.epoch != authority.epoch
                || l.expires_at_ms != authority.expires_at_ms {
                return Err(ProtocolFailure::lease(authority.workspace_id.as_str()));
            }
            Ok(())
        },
    }
}

/// The step an `acquire_workspace_lease` call takes once the caller's
/// Execution is known to own the workspace: a non-positive lifetime is
/// refused; an active lease of the caller is answered as it is
/// (`Ok(Some(..))`); an active lease of another Agent is a lease conflict;
/// otherwise the lease is acquired (`Ok(None)`).
pub fn acquire_lease_step(
    caller: &str,
    workspace_id: &str,
    ttl_ms: i64,
    existing: &Option<LeaseView>,
) -> (r: Result<Option<LeaseResource>, ProtocolFailure>)
    ensures
        ttl_ms <= 0 ==> (r matches Err(f) && plain_failure(
            f,
            ProtocolErrorCode::ValidationError,
            "lease ttl_ms must be positive"@,
            false,
        )),
        ttl_ms > 0 ==> match *existing {
            Some(l) => if !l.active {
                r matches Ok(None)
            } else if opt_text(l.agent_id) == Some(caller@) {
                r matches Ok(Some(x)) && lease_shown(Some(x), l)
            } else {
                r matches Err(f) && lease_failure(f, workspace_id@)
            },
            None => r matches Ok(None),
        },
{
    if ttl_ms <= 0 {
        return Err(ProtocolFailure::validation("lease ttl_ms must be positive"));
    }
    match existing {
        Some(l) => {
            if !l.active {
                return Ok(None);
            }
            if opt_is(&l.agent_id, caller) {
                match lease_resource_from_view(l) {
                    Some(x) => Ok(Some(x)),
                    None => Err(
                        ProtocolFailure::new(
                            ProtocolErrorCode::IntegrityError,
                            "active lease has no Agent owner",
                            false,
                        ),
                    ),
                }
            } else {
                Err(ProtocolFailure::lease(workspace_id))
            }
        },
        None => Ok(None),
    }
}

/// A release is already done when the stored lease is inactive, unowned
/// and at the presented epoch.
pub fn lease_already_released(authority: &LeaseAuthority, existing: &Option<LeaseView>) -> (r: bool)
    ensures
        r == (*existing matches Some(l) && !l.active && l.agent_id is None && l.epoch
            == authority.epoch),
{
    match existing {
        Some(l) => !l.active && l.agent_id.is_none() && l.epoch == authority.epoch,
        None => false,
    }
}

/// The answer to a release.
pub fn released_lease(workspace_id: String) -> (r: ReleasedResource)
    ensures
        r.entity_kind@ == "workspace_lease"@,
        r.entity_id == workspace_id,
{
    ReleasedResource { entity_kind: text_of("workspace_lease"), entity_id: workspace_id }
}

/// An Operation may start only in a running Execution and must name a
/// non-blank action.
pub fn check_operation_start(execution: &ExecutionRecord, execution_id: &str, action: &str) -> (r:
    Result<(), ProtocolFailure>)
    ensures
        r is Ok <==> execution.state@ == "running"@ && !is_blank(action@),
        execution.state@ != "running"@ ==> (r matches Err(f) && entity_failure(
            f,
            ProtocolErrorCode::InvalidState,
            "Operation requires a running Execution"@,
            false,
            "execution"@,
            execution_id@,
        )),
        (execution.state@ == "running"@ && is_blank(action@)) ==> (r matches Err(f)
            && plain_failure(
            f,
            ProtocolErrorCode::ValidationError,
            "operation action must not be empty"@,
            false,
        )),
{
    if !str_equal(execution.state.as_str(), "running") {
        return Err(
            ProtocolFailure::new(
                ProtocolErrorCode::InvalidState,
                "Operation requires a running Execution",
                false,
            ).with_entity("execution", execution_id),
        );
    }
    if str_is_blank(action) {
        return Err(ProtocolFailure::validation("operation action must not be empty"));
    }
    Ok(())
}

/// The caller owns the Operation stored under `operation_id` (`found`).
pub fn require_operation_owner(
    caller: &str,
    operation_id: &str,
    found: &Option<OperationRecord>,
) -> (r: Result<(), ProtocolFailure>)
    ensures
        r is Ok <==> (*found matches Some(o) && o.agent_id@ == caller@),
        found is None ==> (r matches Err(f) && not_found_failure(f, "operation"@, operation_id@)),
        (*found matches Some(o) && o.agent_id@ != caller@) ==> (r matches Err(f) && entity_failure(
            f,
            ProtocolErrorCode::Forbidden,
            "caller does not own the target Operation"@,
            false,
            "operation"@,
            operation_id@,
        )),
{
    match found {
        None => Err(ProtocolFailure::not_found("operation", operation_id)),
        Some(o) => {
            if !str_equal(o.agent_id.as_str(), caller) {
                return Err(
                    ProtocolFailure::forbidden("caller does not own the target Operation").with_entity(
                        "operation",
                        operation_id,
                    ),
                );
            }
            Ok(())
        },
    }
}

/// The lifecycle state each lifecycle call asks an Execution to enter.
pub open spec fn outcome_state(call: ProtocolCall) -> Option<Seq<char>> {
    match call {
        ProtocolCall::PauseExecution(_) => Some("paused"@),
        ProtocolCall::CompleteExecution(_) => Some("completed"@),
        ProtocolCall::FailExecution(_) => Some("failed"@),
        ProtocolCall::InterruptExecution(_) => Some("interrupted"@),
        _ => None,
    }
}

pub fn execution_outcome_state(call: &ProtocolCall) -> (r: Option<&'static str>)
    ensures
        match r {
            Some(s) => outcome_state(*call) == Some(s@),
            None => outcome_state(*call) is None,
        },
{
    match call {
        ProtocolCall::PauseExecution(_) => Some("paused"),
        ProtocolCall::CompleteExecution(_) => Some("completed"),
        ProtocolCall::FailExecution(_) => Some("failed"),
        ProtocolCall::InterruptExecution(_) => Some("interrupted"),
        _ => None,
    }
}

/// Resolve a workspace binding reference through the host's resolver,
/// answering a refusal as the protocol does.
pub fn resolve_binding<R: WorkspaceBindingResolver>(resolver: &R, binding_ref: &str) -> (r: Result<
    String,
    ProtocolFailure,
>)
    ensures
        exists|answer: Result<Seq<char>, WorkspaceBindingError>|
            #[trigger] resolver.may_answer(binding_ref@, answer) && binding_outcome(answer, r),
{
    let answer = resolver.resolve(binding_ref);
    binding_answer_outcome(answer)
}

/// What the protocol answers for the resolver's `answer`.
pub fn binding_answer_outcome(answer: Result<String, WorkspaceBindingError>) -> (r: Result<
    String,
    ProtocolFailure,
>)
    ensures
        binding_outcome(binding_answer_view(answer), r),
{
    match answer {
        Ok(path) => Ok(path),
        Err(error) => Err(ProtocolFailure::from_workspace_binding(error)),
    }
}



/// The publication a `publish_version` command asks for: the command's
/// workspace, lease and revision under the request's operation, request
/// identity and time, recorded under the session `protocol-request:<request
/// id>` by the tool `external-agent-protocol`.
pub fn publish_request_for_command(
    command: PublishVersionCommand,
    operation_id: &str,
    request_id: &str,
    issued_at: &str,
    now_ms: i64,
) -> (r: PublishVersionRequest)
    ensures
        r.workspace_id == command.workspace_id,
        r.lease.workspace_id == command.lease.workspace_id,
        r.lease.agent_id == command.lease.agent_id,
        r.lease.epoch == command.lease.epoch,
        r.lease.expires_at_ms == command.lease.expires_at_ms,
        r.expected_workspace_revision == command.expected_workspace_revision,
        r.now_ms == now_ms,
        r.created_at@ == issued_at@,
        r.operation_id@ == operation_id@,
        r.request_id@ == request_id@,
        opt_text(r.session_id) == Some("protocol-request:"@ + request_id@),
        opt_text(r.tool) == Some("external-agent-protocol"@),
        r.parent_version_id == command.parent_version_id,
        r.update_version_head == command.update_version_head,
{
    let lease = command.lease.to_token();
    PublishVersionRequest {
        workspace_id: command.workspace_id,
        lease,
        expected_workspace_revision: command.expected_workspace_revision,
        now_ms,
        created_at: text_of(issued_at),
        operation_id: text_of(operation_id),
        request_id: text_of(request_id),
        session_id: Some(concat("protocol-request:", request_id)),
        tool: Some(text_of("external-agent-protocol")),
        parent_version_id: command.parent_version_id,
        update_version_head: command.update_version_head,
    }
}

/// The envelope an external Agent's operation starts with: the Execution's
/// project and workspace, the workspace's environment, the caller, and an
/// external side effect whose reversibility and replayability are unknown.
pub fn execution_operation_envelope(
    execution: &ExecutionRecord,
    command: StartOperationCommand,
    operation_id: &str,
    request_id: &str,
    caller: &str,
    environment_id: Option<String>,
    issued_at: &str,
) -> (r: OperationEnvelope)
    ensures
        r.operation_id@ == operation_id@,
        r.project_id@ == execution.project_id@,
        r.request_id@ == request_id@,
        r.agent_id@ == caller@,
        r.session_id@ == "execution:"@ + command.execution_id@,
        opt_text(r.workspace_id) == opt_text(execution.workspace_id),
        r.environment_id == environment_id,
        r.parent_operation_id is None,
        r.schema_version@ == OPERATION_SCHEMA_VERSION@,
        r.started_at@ == issued_at@,
        r.tool@ == "external-agent-runtime"@,
        r.action == command.action,
        r.input_refs@.len() == 0,
        r.output_refs@.len() == 0,
        r.resource is None,
        r.before_state is None,
        r.after_state is None,
        r.reversibility@ == "UNKNOWN"@,
        r.replayability@ == "UNKNOWN"@,
        r.side_effect@ == "EXTERNAL"@,
        r.policy_decision is None,
{
    OperationEnvelope {
        operation_id: text_of(operation_id),
        project_id: execution.project_id.clone(),
        request_id: text_of(request_id),
        agent_id: text_of(caller),
        session_id: concat("execution:", command.execution_id.as_str()),
        workspace_id: clone_opt(&execution.workspace_id),
        environment_id,
        parent_operation_id: None,
        schema_version: text_of(OPERATION_SCHEMA_VERSION),
        started_at: text_of(issued_at),
        tool: text_of("external-agent-runtime"),
        action: command.action,
        input_refs: Vec::new(),
        output_refs: Vec::new(),
        resource: None,
        before_state: None,
        after_state: None,
        reversibility: text_of("UNKNOWN"),
        replayability: text_of("UNKNOWN"),
        side_effect: text_of("EXTERNAL"),
        policy_decision: None,
    }
}

/// What finishing an operation records from an external Agent's report:
/// the terminal status, the reported failure as an error that is not safe
/// to expose, and, for a completion, an acknowledgement result.
pub fn operation_outcome(command: FinishOperationCommand) -> (r: (
    &'static str,
    Option<OperationError>,
    Option<JsonValue>,
))
    ensures
        r.0@ == match command.status {
            OperationTerminalStatus::Completed => "completed"@,
            OperationTerminalStatus::Failed => "failed"@,
            OperationTerminalStatus::Cancelled => "cancelled"@,
            OperationTerminalStatus::Unknown => "unknown"@,
        },
        match command.failure {
            Some(f) => r.1 matches Some(e) && e.code == f.code && e.message@
                == "external Agent reported a terminal Operation outcome"@ && e.retryable
                == f.retryable && e.details is None && !e.safe_to_expose,
            None => r.1 is None,
        },
        command.status == OperationTerminalStatus::Completed ==> (r.2 matches Some(
            JsonValue::Object(entries),
        ) && entries@.len() == 1 && entries@[0].0@ == "acknowledgement"@ && (entries@[0].1 matches JsonValue::String(
            t,
        ) && t@ == "external Agent reported completion"@)),
        command.status != OperationTerminalStatus::Completed ==> r.2 is None,
{
    let status = command.status.as_str();
    let error = match command.failure {
        Some(f) => Some(
            OperationError {
                code: f.code,
                message: text_of("external Agent reported a terminal Operation outcome"),
                retryable: f.retryable,
                details: None,
                safe_to_expose: false,
            },
        ),
        None => None,
    };
    let result = match command.status {
        OperationTerminalStatus::Completed => {
            let mut entries: Vec<(String, JsonValue)> = Vec::new();
            entries.push(
                (
                    text_of("acknowledgement"),
                    JsonValue::text("external Agent reported completion"),
                ),
            );
            Some(JsonValue::Object(entries))
        },
        _ => None,
    };
    (status, error, result)
}


/// The rows the checks of one call read, as the repository owner found
/// them at the host's time: the Execution the call names (for a handoff,
/// the one it is handed from), the Workspace it names (or its lease's
/// Workspace), that Workspace's lease, and the Operation the call or the
/// request names.
#[derive(Debug)]
pub struct DispatchReads {
    pub execution: Option<ExecutionRecord>,
    pub workspace: Option<WorkspaceView>,
    pub lease: Option<LeaseView>,
    pub operation: Option<OperationRecord>,
}

/// What the protocol does with an authenticated call once its checks have
/// read what they need.
#[derive(Debug)]
pub enum DispatchStep {
    /// The call is refused with this failure; nothing is written.
    Refuse(ProtocolFailure),
    /// The checks pass: the repository owner performs the call's durable
    /// work, with the caller as acting Agent and the request's time.
    Act(ProtocolCall),
    /// The call is answered from what was read, with nothing written.
    Answer(ProtocolResult),
}

/// The calls that act under the request's Operation identity.
pub open spec fn needs_operation_id(call: ProtocolCall) -> bool {
    ||| call is PublishVersion
    ||| call is StartOperation
    ||| call is FinishOperation
}

/// The Execution whose ownership a call checks, if it checks one.
pub open spec fn named_execution(call: ProtocolCall) -> Option<Seq<char>> {
    match call {
        ProtocolCall::StartExecution(c) => Some(c.execution_id@),
        ProtocolCall::PauseExecution(c) => Some(c.execution_id@),
        ProtocolCall::CompleteExecution(c) => Some(c.execution_id@),
        ProtocolCall::FailExecution(c) => Some(c.execution_id@),
        ProtocolCall::InterruptExecution(c) => Some(c.execution_id@),
        ProtocolCall::AcquireWorkspaceLease(c) => Some(c.execution_id@),
        ProtocolCall::PublishVersion(c) => Some(c.execution_id@),
        ProtocolCall::SetExecutionCurrentVersion(c) => Some(c.execution_id@),
        ProtocolCall::CreateCheckpoint(c) => Some(c.execution_id@),
        ProtocolCall::CreateHandoff(c) => Some(c.from_execution_id@),
        ProtocolCall::MaterializeVersion(c) => Some(c.execution_id@),
        ProtocolCall::StartOperation(c) => Some(c.execution_id@),
        ProtocolCall::FinishOperation(c) => Some(c.execution_id@),
        ProtocolCall::GetExecution(q) => Some(q.id@),
        ProtocolCall::InspectExecution(q) => Some(q.id@),
        _ => None,
    }
}

/// The checks a call makes before its Execution's ownership: the
/// Operation identity, and revisions that must not be negative.
pub open spec fn fails_before_ownership(call: ProtocolCall, operation_id: Option<String>) -> bool {
    ||| (needs_operation_id(call) && operation_id is None)
    ||| (call matches ProtocolCall::StartExecution(c) && c.expected_revision < 0)
    ||| (call matches ProtocolCall::PauseExecution(c) && c.expected_revision < 0)
    ||| (call matches ProtocolCall::CompleteExecution(c) && c.expected_revision < 0)
    ||| (call matches ProtocolCall::FailExecution(c) && c.expected_revision < 0)
    ||| (call matches ProtocolCall::InterruptExecution(c) && c.expected_revision < 0)
    ||| (call matches ProtocolCall::SetExecutionCurrentVersion(c) && (c.expected_execution_revision
        < 0 || c.expected_workspace_revision < 0))
}

/// The caller owns the Execution that was read.
pub open spec fn owns_execution(caller: Seq<char>, reads: DispatchReads) -> bool {
    reads.execution matches Some(e) && e.agent_id@ == caller
}

/// The caller owns the Execution read, and it is bound to `workspace_id`.
pub open spec fn owns_execution_workspace(
    caller: Seq<char>,
    reads: DispatchReads,
    workspace_id: Seq<char>,
) -> bool {
    reads.execution matches Some(e) && e.agent_id@ == caller && opt_text(e.workspace_id) == Some(
        workspace_id,
    )
}

/// The Workspace read is at the expected revision.
pub open spec fn workspace_at(reads: DispatchReads, expected_revision: i64) -> bool {
    expected_revision >= 0 && (reads.workspace matches Some(w) && w.revision == expected_revision)
}

/// The presented lease is the caller's current lease.
pub open spec fn holds_lease(caller: Seq<char>, authority: LeaseAuthority, reads: DispatchReads) -> bool {
    authority.agent_id@ == caller && (reads.lease matches Some(l) && lease_current(
        caller,
        authority,
        l,
    ))
}

/// The lifecycle move of the Execution read is acceptable.
pub open spec fn may_move(
    caller: Seq<char>,
    reads: DispatchReads,
    expected_revision: i64,
    next_state: Seq<char>,
    outcome: Option<Seq<char>>,
) -> bool {
    expected_revision >= 0 && (reads.execution matches Some(e) && e.agent_id@ == caller
        && transition_acceptable(e, expected_revision, next_state, outcome))
}

/// The revisions of a request to record an Execution's current Version
/// agree with what was read: an exact retry, or both at the expected
/// revisions.
pub open spec fn version_revisions_ok(
    caller: Seq<char>,
    c: SetExecutionVersionCommand,
    reads: DispatchReads,
) -> bool {
    &&& c.expected_execution_revision >= 0
    &&& c.expected_workspace_revision >= 0
    &&& owns_execution_workspace(caller, reads, c.lease.workspace_id@)
    &&& reads.workspace is Some
    &&& ({
        let e = reads.execution->0;
        let w = reads.workspace->0;
        ||| (opt_text(e.current_version_id) == Some(c.version_id@) && e.revision == next_revision(
            c.expected_execution_revision,
        ) && w.revision == next_revision(c.expected_workspace_revision))
        ||| (e.revision == c.expected_execution_revision && w.revision
            == c.expected_workspace_revision)
    })
}

/// Whether every check of `call` passes on what was read.
pub open spec fn dispatch_admits(
    caller: Seq<char>,
    operation_id: Option<String>,
    call: ProtocolCall,
    reads: DispatchReads,
) -> bool {
    match call {
        ProtocolCall::Hello => false,
        ProtocolCall::RegisterAgent(_) => false,
        ProtocolCall::StartExecution(c) => may_move(
            caller,
            reads,
            c.expected_revision,
            "running"@,
            None,
        ),
        ProtocolCall::PauseExecution(c) => may_move(
            caller,
            reads,
            c.expected_revision,
            "paused"@,
            opt_text(c.outcome_code),
        ),
        ProtocolCall::CompleteExecution(c) => may_move(
            caller,
            reads,
            c.expected_revision,
            "completed"@,
            opt_text(c.outcome_code),
        ),
        ProtocolCall::FailExecution(c) => may_move(
            caller,
            reads,
            c.expected_revision,
            "failed"@,
            opt_text(c.outcome_code),
        ),
        ProtocolCall::InterruptExecution(c) => may_move(
            caller,
            reads,
            c.expected_revision,
            "interrupted"@,
            opt_text(c.outcome_code),
        ),
        ProtocolCall::AcquireWorkspaceLease(c) => {
            &&& owns_execution_workspace(caller, reads, c.workspace_id@)
            &&& c.ttl_ms > 0
            &&& !(reads.lease matches Some(l) && l.active && opt_text(l.agent_id) != Some(caller))
        },
        ProtocolCall::RenewWorkspaceLease(c) => holds_lease(caller, c.lease, reads) && c.ttl_ms > 0,
        ProtocolCall::ReleaseWorkspaceLease(c) => {
            ||| (reads.lease matches Some(l) && !l.active && l.agent_id is None && l.epoch
                == c.lease.epoch)
            ||| holds_lease(caller, c.lease, reads)
        },
        ProtocolCall::PublishVersion(c) => {
            &&& operation_id is Some
            &&& owns_execution_workspace(caller, reads, c.workspace_id@)
            &&& (reads.operation is None ==> workspace_at(reads, c.expected_workspace_revision))
            &&& holds_lease(caller, c.lease, reads)
        },
        ProtocolCall::SetExecutionCurrentVersion(c) => version_revisions_ok(caller, c, reads)
            && holds_lease(caller, c.lease, reads),
        ProtocolCall::CreateCheckpoint(c) => owns_execution_workspace(
            caller,
            reads,
            c.workspace_id@,
        ),
        ProtocolCall::CreateHandoff(_) => owns_execution(caller, reads),
        ProtocolCall::MaterializeVersion(c) => {
            &&& owns_execution_workspace(caller, reads, c.workspace_id@)
            &&& workspace_at(reads, c.expected_workspace_revision)
            &&& holds_lease(caller, c.lease, reads)
        },
        ProtocolCall::StartOperation(c) => {
            &&& operation_id is Some
            &&& owns_execution(caller, reads)
            &&& reads.execution->0.state@ == "running"@
            &&& !is_blank(c.action@)
            &&& (reads.execution->0.workspace_id is Some ==> reads.workspace is Some)
        },
        ProtocolCall::FinishOperation(c) => {
            &&& operation_id is Some
            &&& owns_execution(caller, reads)
            &&& reads.operation matches Some(o) && o.agent_id@ == caller
            &&& operation_outcome_problem(c) is None
        },
        ProtocolCall::GetExecution(_) => owns_execution(caller, reads),
        ProtocolCall::InspectExecution(_) => owns_execution(caller, reads),
        ProtocolCall::GetOperation(_) => reads.operation matches Some(o) && o.agent_id@ == caller,
        _ => true,
    }
}

/// The refusal of a caller that does not own the Execution read.
pub open spec fn owner_refusal(id: Seq<char>, found: Option<ExecutionRecord>, f: ProtocolFailure) -> bool {
    match found {
        None => not_found_failure(f, "execution"@, id),
        Some(_) => entity_failure(
            f,
            ProtocolErrorCode::Forbidden,
            "caller does not own the target Execution"@,
            false,
            "execution"@,
            id,
        ),
    }
}

/// The refusal of an Execution that the caller does not own or that is
/// not bound to `workspace_id`.
pub open spec fn execution_workspace_refusal(
    caller: Seq<char>,
    id: Seq<char>,
    workspace_id: Seq<char>,
    found: Option<ExecutionRecord>,
    f: ProtocolFailure,
) -> bool {
    if !(found matches Some(e) && e.agent_id@ == caller) {
        owner_refusal(id, found, f)
    } else {
        entity_failure(
            f,
            ProtocolErrorCode::Forbidden,
            "Execution does not own the target Workspace"@,
            false,
            "workspace"@,
            workspace_id,
        )
    }
}

/// The refusal of a lifecycle move.
pub open spec fn transition_refusal(
    caller: Seq<char>,
    id: Seq<char>,
    expected_revision: i64,
    found: Option<ExecutionRecord>,
    f: ProtocolFailure,
) -> bool {
    if expected_revision < 0 {
        plain_failure(
            f,
            ProtocolErrorCode::ValidationError,
            "expected Execution revision must not be negative"@,
            false,
        )
    } else if !(found matches Some(e) && e.agent_id@ == caller) {
        owner_refusal(id, found, f)
    } else if found->0.revision != expected_revision {
        revision_failure(f, "execution"@, id, expected_revision, found->0.revision)
    } else {
        entity_failure(
            f,
            ProtocolErrorCode::InvalidState,
            "Execution lifecycle transition is not allowed"@,
            false,
            "execution"@,
            id,
        )
    }
}

/// The refusal of a Workspace revision check.
pub open spec fn workspace_revision_refusal(
    workspace_id: Seq<char>,
    expected_revision: i64,
    found: Option<WorkspaceView>,
    f: ProtocolFailure,
) -> bool {
    if expected_revision < 0 {
        plain_failure(
            f,
            ProtocolErrorCode::ValidationError,
            "expected Workspace revision must not be negative"@,
            false,
        )
    } else {
        match found {
            None => not_found_failure(f, "workspace"@, workspace_id),
            Some(w) => revision_failure(f, "workspace"@, workspace_id, expected_revision, w.revision),
        }
    }
}

/// The refusal of a request to record an Execution's current Version.
pub open spec fn version_revisions_refusal(
    caller: Seq<char>,
    id: Seq<char>,
    workspace_id: Seq<char>,
    expected_execution_revision: i64,
    expected_workspace_revision: i64,
    execution: Option<ExecutionRecord>,
    workspace: Option<WorkspaceView>,
    f: ProtocolFailure,
) -> bool {
    if expected_execution_revision < 0 || expected_workspace_revision < 0 {
        plain_failure(
            f,
            ProtocolErrorCode::ValidationError,
            "expected revision must not be negative"@,
            false,
        )
    } else if !(execution matches Some(e) && e.agent_id@ == caller && opt_text(e.workspace_id)
        == Some(workspace_id)) {
        execution_workspace_refusal(caller, id, workspace_id, execution, f)
    } else if workspace is None {
        not_found_failure(f, "workspace"@, workspace_id)
    } else if execution->0.revision != expected_execution_revision {
        revision_failure(
            f,
            "execution"@,
            id,
            expected_execution_revision,
            execution->0.revision,
        )
    } else {
        revision_failure(
            f,
            "workspace"@,
            workspace_id,
            expected_workspace_revision,
            workspace->0.revision,
        )
    }
}

/// The refusal of an Operation that the caller does not own.
pub open spec fn operation_refusal(id: Seq<char>, found: Option<OperationRecord>, f: ProtocolFailure) -> bool {
    match found {
        None => not_found_failure(f, "operation"@, id),
        Some(_) => entity_failure(
            f,
            ProtocolErrorCode::Forbidden,
            "caller does not own the target Operation"@,
            false,
            "operation"@,
            id,
        ),
    }
}

/// The refusal of a lease `ttl_ms` that is not positive.
pub open spec fn ttl_refusal(f: ProtocolFailure) -> bool {
    plain_failure(f, ProtocolErrorCode::ValidationError, "lease ttl_ms must be positive"@, false)
}

/// The refusal of a missing Operation identity.
pub open spec fn operation_id_refusal(f: ProtocolFailure) -> bool {
    plain_failure(f, ProtocolErrorCode::ValidationError, "operation_id is required"@, false)
}

/// The failure `dispatch_decision` refuses a call with: the first failing
/// check's, in the protocol's order.
pub open spec fn dispatch_refusal(
    caller: Seq<char>,
    operation_id: Option<String>,
    call: ProtocolCall,
    reads: DispatchReads,
    f: ProtocolFailure,
) -> bool {
    match call {
        ProtocolCall::Hello => plain_failure(
            f,
            ProtocolErrorCode::InternalError,
            "protocol dispatcher reached an invalid state"@,
            false,
        ),
        ProtocolCall::RegisterAgent(_) => plain_failure(
            f,
            ProtocolErrorCode::InternalError,
            "protocol dispatcher reached an invalid state"@,
            false,
        ),
        ProtocolCall::StartExecution(c) => transition_refusal(
            caller,
            c.execution_id@,
            c.expected_revision,
            reads.execution,
            f,
        ),
        ProtocolCall::PauseExecution(c) => transition_refusal(
            caller,
            c.execution_id@,
            c.expected_revision,
            reads.execution,
            f,
        ),
        ProtocolCall::CompleteExecution(c) => transition_refusal(
            caller,
            c.execution_id@,
            c.expected_revision,
            reads.execution,
            f,
        ),
        ProtocolCall::FailExecution(c) => transition_refusal(
            caller,
            c.execution_id@,
            c.expected_revision,
            reads.execution,
            f,
        ),
        ProtocolCall::InterruptExecution(c) => transition_refusal(
            caller,
            c.execution_id@,
            c.expected_revision,
            reads.execution,
            f,
        ),
        ProtocolCall::AcquireWorkspaceLease(c) => if !owns_execution_workspace(
            caller,
            reads,
            c.workspace_id@,
        ) {
            execution_workspace_refusal(caller, c.execution_id@, c.workspace_id@, reads.execution, f)
        } else if c.ttl_ms <= 0 {
            ttl_refusal(f)
        } else {
            lease_failure(f, c.workspace_id@)
        },
        ProtocolCall::RenewWorkspaceLease(c) => if !holds_lease(caller, c.lease, reads) {
            lease_failure(f, c.lease.workspace_id@)
        } else {
            ttl_refusal(f)
        },
        ProtocolCall::ReleaseWorkspaceLease(c) => lease_failure(f, c.lease.workspace_id@),
        ProtocolCall::PublishVersion(c) => if operation_id is None {
            operation_id_refusal(f)
        } else if !owns_execution_workspace(caller, reads, c.workspace_id@) {
            execution_workspace_refusal(caller, c.execution_id@, c.workspace_id@, reads.execution, f)
        } else if reads.operation is None && !workspace_at(reads, c.expected_workspace_revision) {
            workspace_revision_refusal(
                c.workspace_id@,
                c.expected_workspace_revision,
                reads.workspace,
                f,
            )
        } else {
            lease_failure(f, c.lease.workspace_id@)
        },
        ProtocolCall::SetExecutionCurrentVersion(c) => if !version_revisions_ok(
            caller,
            c,
            reads,
        ) {
            version_revisions_refusal(
                caller,
                c.execution_id@,
                c.lease.workspace_id@,
                c.expected_execution_revision,
                c.expected_workspace_revision,
                reads.execution,
                reads.workspace,
                f,
            )
        } else {
            lease_failure(f, c.lease.workspace_id@)
        },
        ProtocolCall::CreateCheckpoint(c) => execution_workspace_refusal(
            caller,
            c.execution_id@,
            c.workspace_id@,
            reads.execution,
            f,
        ),
        ProtocolCall::CreateHandoff(c) => owner_refusal(c.from_execution_id@, reads.execution, f),
        ProtocolCall::MaterializeVersion(c) => if !owns_execution_workspace(
            caller,
            reads,
            c.workspace_id@,
        ) {
            execution_workspace_refusal(caller, c.execution_id@, c.workspace_id@, reads.execution, f)
        } else if !workspace_at(reads, c.expected_workspace_revision) {
            workspace_revision_refusal(
                c.workspace_id@,
                c.expected_workspace_revision,
                reads.workspace,
                f,
            )
        } else {
            lease_failure(f, c.lease.workspace_id@)
        },
        ProtocolCall::StartOperation(c) => if operation_id is None {
            operation_id_refusal(f)
        } else if !owns_execution(caller, reads) {
            owner_refusal(c.execution_id@, reads.execution, f)
        } else if reads.execution->0.state@ != "running"@ {
            entity_failure(
                f,
                ProtocolErrorCode::InvalidState,
                "Operation requires a running Execution"@,
                false,
                "execution"@,
                c.execution_id@,
            )
        } else if is_blank(c.action@) {
            plain_failure(
                f,
                ProtocolErrorCode::ValidationError,
                "operation action must not be empty"@,
                false,
            )
        } else {
            not_found_failure(f, "workspace"@, opt_text(reads.execution->0.workspace_id)->0)
        },
        ProtocolCall::FinishOperation(c) => if operation_id is None {
            operation_id_refusal(f)
        } else if !owns_execution(caller, reads) {
            owner_refusal(c.execution_id@, reads.execution, f)
        } else if !(reads.operation matches Some(o) && o.agent_id@ == caller) {
            operation_refusal(operation_id->0@, reads.operation, f)
        } else {
            operation_outcome_problem(c) matches Some(m) && plain_failure(
                f,
                ProtocolErrorCode::ValidationError,
                m,
                false,
            )
        },
        ProtocolCall::GetExecution(q) => owner_refusal(q.id@, reads.execution, f),
        ProtocolCall::InspectExecution(q) => owner_refusal(q.id@, reads.execution, f),
        ProtocolCall::GetOperation(q) => operation_refusal(q.id@, reads.operation, f),
        _ => false,
    }
}

/// `x` shows the Execution record `e` field for field.
pub open spec fn execution_shown(x: ExecutionResource, e: ExecutionRecord) -> bool {
    &&& x.execution_id == e.execution_id
    &&& x.task_id == e.task_id
    &&& x.agent_id == e.agent_id
    &&& x.project_id == e.project_id
    &&& x.parent_execution_id == e.parent_execution_id
    &&& x.workspace_id == e.workspace_id
    &&& x.base_version_id == e.base_version_id
    &&& x.current_version_id == e.current_version_id
    &&& x.state == e.state
    &&& x.outcome_code == e.outcome
    &&& x.revision == e.revision
    &&& x.created_at == e.created_at
    &&& x.updated_at == e.updated_at
}

/// The calls answered from what was read, with nothing written.
pub open spec fn answered_from_reads(call: ProtocolCall, reads: DispatchReads) -> bool {
    match call {
        ProtocolCall::GetExecution(_) => true,
        ProtocolCall::AcquireWorkspaceLease(_) => reads.lease matches Some(l) && l.active,
        ProtocolCall::ReleaseWorkspaceLease(c) => reads.lease matches Some(l) && !l.active
            && l.agent_id is None && l.epoch == c.lease.epoch,
        _ => false,
    }
}

/// The answer given from what was read.
pub open spec fn answer_shown(call: ProtocolCall, reads: DispatchReads, x: ProtocolResult) -> bool {
    match call {
        ProtocolCall::GetExecution(_) => x matches ProtocolResult::Execution(y) && execution_shown(
            y,
            reads.execution->0,
        ),
        ProtocolCall::AcquireWorkspaceLease(_) => x matches ProtocolResult::Lease(y) && lease_shown(
            Some(y),
            reads.lease->0,
        ),
        ProtocolCall::ReleaseWorkspaceLease(c) => x matches ProtocolResult::Released(y)
            && y.entity_kind@ == "workspace_lease"@ && y.entity_id@ == c.lease.workspace_id@,
        _ => false,
    }
}

/// What a call's checks give: its refusal, an answer from what was read,
/// or nothing (the call goes on to its durable work).
pub open spec fn checks_outcome(
    caller: Seq<char>,
    operation_id: Option<String>,
    call: ProtocolCall,
    reads: DispatchReads,
    g: Result<Option<ProtocolResult>, ProtocolFailure>,
) -> bool {
    match g {
        Err(f) => !dispatch_admits(caller, operation_id, call, reads) && dispatch_refusal(
            caller,
            operation_id,
            call,
            reads,
            f,
        ),
        Ok(None) => dispatch_admits(caller, operation_id, call, reads) && !answered_from_reads(
            call,
            reads,
        ),
        Ok(Some(x)) => dispatch_admits(caller, operation_id, call, reads) && answered_from_reads(
            call,
            reads,
        ) && answer_shown(call, reads, x),
    }
}

/// The refusals the protocol owes whatever the call: a missing Operation
/// identity, a missing or foreign Execution once the earlier checks pass,
/// and the calls the dispatcher never takes.
pub proof fn lemma_dispatch_laws(
    caller: Seq<char>,
    operation_id: Option<String>,
    call: ProtocolCall,
    reads: DispatchReads,
)
    ensures
        (needs_operation_id(call) && operation_id is None) ==> !dispatch_admits(
            caller,
            operation_id,
            call,
            reads,
        ) && forall|f: ProtocolFailure| #[trigger]
            dispatch_refusal(caller, operation_id, call, reads, f) ==> operation_id_refusal(f),
        (named_execution(call) is Some && !fails_before_ownership(call, operation_id) && !(
        reads.execution matches Some(e) && e.agent_id@ == caller)) ==> !dispatch_admits(
            caller,
            operation_id,
            call,
            reads,
        ) && forall|f: ProtocolFailure| #[trigger]
            dispatch_refusal(caller, operation_id, call, reads, f) ==> owner_refusal(
                named_execution(call)->0,
                reads.execution,
                f,
            ),
        (call is Hello || call is RegisterAgent) ==> !dispatch_admits(
            caller,
            operation_id,
            call,
            reads,
        ),
        !(call is GetExecution || call is AcquireWorkspaceLease || call is ReleaseWorkspaceLease)
            ==> !answered_from_reads(call, reads),
{
}

/// Decides an authenticated call from the rows its checks read, in the
/// order the protocol checks them: refused with the first failing check's
/// failure, answered from what was read, or handed on as durable work.
pub fn dispatch_decision(caller: &str, request: ProtocolRequest, reads: &DispatchReads) -> (r:
    DispatchStep)
    ensures
        r is Refuse <==> !dispatch_admits(caller@, request.operation_id, request.call, *reads),
        r matches DispatchStep::Refuse(f) ==> dispatch_refusal(
            caller@,
            request.operation_id,
            request.call,
            *reads,
            f,
        ),
        (needs_operation_id(request.call) && request.operation_id is None) ==> (r matches DispatchStep::Refuse(f)
            && plain_failure(f, ProtocolErrorCode::ValidationError, "operation_id is required"@, false)),
        named_execution(request.call) matches Some(id) ==> ((!fails_before_ownership(
            request.call,
            request.operation_id,
        ) && reads.execution is None) ==> (r matches DispatchStep::Refuse(f) && not_found_failure(
            f,
            "execution"@,
            id,
        ))),
        named_execution(request.call) matches Some(id) ==> ((!fails_before_ownership(
            request.call,
            request.operation_id,
        ) && (reads.execution matches Some(e) && e.agent_id@ != caller@)) ==> (r matches DispatchStep::Refuse(f)
            && entity_failure(
            f,
            ProtocolErrorCode::Forbidden,
            "caller does not own the target Execution"@,
            false,
            "execution"@,
            id,
        ))),
        (request.call is Hello || request.call is RegisterAgent) ==> (r matches DispatchStep::Refuse(f)
            && plain_failure(
            f,
            ProtocolErrorCode::InternalError,
            "protocol dispatcher reached an invalid state"@,
            false,
        )),
        dispatch_admits(caller@, request.operation_id, request.call, *reads) ==> match request.call {
            ProtocolCall::GetExecution(_) => r matches DispatchStep::Answer(ProtocolResult::Execution(x))
                && execution_shown(x, reads.execution->0),
            ProtocolCall::AcquireWorkspaceLease(c) => if reads.lease matches Some(l) && l.active {
                r matches DispatchStep::Answer(ProtocolResult::Lease(x)) && lease_shown(
                    Some(x),
                    reads.lease->0,
                )
            } else {
                r matches DispatchStep::Act(a) && a == request.call
            },
            ProtocolCall::ReleaseWorkspaceLease(c) => if reads.lease matches Some(l) && !l.active
                && l.agent_id is None && l.epoch == c.lease.epoch {
                r matches DispatchStep::Answer(ProtocolResult::Released(x)) && x.entity_kind@
                    == "workspace_lease"@ && x.entity_id@ == c.lease.workspace_id@
            } else {
                r matches DispatchStep::Act(a) && a == request.call
            },
            _ => r matches DispatchStep::Act(a) && a == request.call,
        },
{
    let g = match &request.call {
        ProtocolCall::Hello
        | ProtocolCall::RegisterAgent(_)
        | ProtocolCall::StartExecution(_)
        | ProtocolCall::PauseExecution(_)
        | ProtocolCall::CompleteExecution(_)
        | ProtocolCall::FailExecution(_)
        | ProtocolCall::InterruptExecution(_)
        | ProtocolCall::CreateHandoff(_)
        | ProtocolCall::GetExecution(_)
        | ProtocolCall::InspectExecution(_) => execution_checks(
            caller,
            &request.operation_id,
            &request.call,
            reads,
        ),
        ProtocolCall::AcquireWorkspaceLease(_)
        | ProtocolCall::RenewWorkspaceLease(_)
        | ProtocolCall::ReleaseWorkspaceLease(_)
        | ProtocolCall::PublishVersion(_)
        | ProtocolCall::SetExecutionCurrentVersion(_)
        | ProtocolCall::CreateCheckpoint(_)
        | ProtocolCall::MaterializeVersion(_) => workspace_checks(
            caller,
            &request.operation_id,
            &request.call,
            reads,
        ),
        ProtocolCall::StartOperation(_)
        | ProtocolCall::FinishOperation(_)
        | ProtocolCall::GetOperation(_) => operation_checks(
            caller,
            &request.operation_id,
            &request.call,
            reads,
        ),
        _ => Ok(None),
    };
    proof {
        lemma_dispatch_laws(caller@, request.operation_id, request.call, *reads);
    }
    match g {
        Err(f) => DispatchStep::Refuse(f),
        Ok(Some(x)) => DispatchStep::Answer(x),
        Ok(None) => DispatchStep::Act(request.call),
    }
}

#[verifier::rlimit(60)]
fn execution_checks(
    caller: &str,
    operation_id: &Option<String>,
    call: &ProtocolCall,
    reads: &DispatchReads,
) -> (g: Result<Option<ProtocolResult>, ProtocolFailure>)
    requires
        call is Hello || call is RegisterAgent || call is StartExecution || call is PauseExecution || call is CompleteExecution || call is FailExecution || call is InterruptExecution || call is CreateHandoff || call is GetExecution || call is InspectExecution,
    ensures
        checks_outcome(caller@, *operation_id, *call, *reads, g),
{
    let caller_ok = caller;
    match call {
        ProtocolCall::Hello | ProtocolCall::RegisterAgent(_) => {
            return Err(
                ProtocolFailure::new(
                    ProtocolErrorCode::InternalError,
                    "protocol dispatcher reached an invalid state",
                    false,
                ),
            );
        },
        ProtocolCall::StartExecution(c) => {
            let none: Option<String> = None;
            if let Err(f) = require_execution_transition(
                caller_ok,
                c.execution_id.as_str(),
                c.expected_revision,
                "running",
                &none,
                &reads.execution,
            ) {
                return Err(f);
            }
        },
        ProtocolCall::PauseExecution(c) => {
            if let Err(f) = require_execution_transition(
                caller_ok,
                c.execution_id.as_str(),
                c.expected_revision,
                "paused",
                &c.outcome_code,
                &reads.execution,
            ) {
                return Err(f);
            }
        },
        ProtocolCall::CompleteExecution(c) => {
            if let Err(f) = require_execution_transition(
                caller_ok,
                c.execution_id.as_str(),
                c.expected_revision,
                "completed",
                &c.outcome_code,
                &reads.execution,
            ) {
                return Err(f);
            }
        },
        ProtocolCall::FailExecution(c) => {
            if let Err(f) = require_execution_transition(
                caller_ok,
                c.execution_id.as_str(),
                c.expected_revision,
                "failed",
                &c.outcome_code,
                &reads.execution,
            ) {
                return Err(f);
            }
        },
        ProtocolCall::InterruptExecution(c) => {
            if let Err(f) = require_execution_transition(
                caller_ok,
                c.execution_id.as_str(),
                c.expected_revision,
                "interrupted",
                &c.outcome_code,
                &reads.execution,
            ) {
                return Err(f);
            }
        },
        ProtocolCall::CreateHandoff(c) => {
            if let Err(f) = require_execution_owner(
                caller_ok,
                c.from_execution_id.as_str(),
                &reads.execution,
            ) {
                return Err(f);
            }
        },
        ProtocolCall::GetExecution(q) => {
            if let Err(f) = require_execution_owner(caller_ok, q.id.as_str(), &reads.execution) {
                return Err(f);
            }
            match &reads.execution {
                Some(e) => {
                    return Ok(Some(ProtocolResult::Execution(ExecutionResource::from_record(e))));
                },
                None => {
                    return Err(ProtocolFailure::not_found("execution", q.id.as_str()));
                },
            }
        },
        ProtocolCall::InspectExecution(q) => {
            if let Err(f) = require_execution_owner(caller_ok, q.id.as_str(), &reads.execution) {
                return Err(f);
            }
        },
        _ => {},
    }
    Ok(None)
}

#[verifier::rlimit(60)]
fn workspace_checks(
    caller: &str,
    operation_id: &Option<String>,
    call: &ProtocolCall,
    reads: &DispatchReads,
) -> (g: Result<Option<ProtocolResult>, ProtocolFailure>)
    requires
        call is AcquireWorkspaceLease || call is RenewWorkspaceLease || call is ReleaseWorkspaceLease || call is PublishVersion || call is SetExecutionCurrentVersion || call is CreateCheckpoint || call is MaterializeVersion,
    ensures
        checks_outcome(caller@, *operation_id, *call, *reads, g),
{
    let caller_ok = caller;
    match call {
        ProtocolCall::AcquireWorkspaceLease(c) => {
            if let Err(f) = require_execution_workspace(
                caller_ok,
                c.execution_id.as_str(),
                c.workspace_id.as_str(),
                &reads.execution,
            ) {
                return Err(f);
            }
            match acquire_lease_step(caller_ok, c.workspace_id.as_str(), c.ttl_ms, &reads.lease) {
                Err(f) => {
                    return Err(f);
                },
                Ok(Some(x)) => {
                    return Ok(Some(ProtocolResult::Lease(x)));
                },
                Ok(None) => {},
            }
        },
        ProtocolCall::RenewWorkspaceLease(c) => {
            if let Err(f) = require_lease(caller_ok, &c.lease, &reads.lease) {
                return Err(f);
            }
            if c.ttl_ms <= 0 {
                return Err(ProtocolFailure::validation("lease ttl_ms must be positive"));
            }
        },
        ProtocolCall::ReleaseWorkspaceLease(c) => {
            if lease_already_released(&c.lease, &reads.lease) {
                return Ok(Some(ProtocolResult::Released(released_lease(c.lease.workspace_id.clone()))));
            }
            if let Err(f) = require_lease(caller_ok, &c.lease, &reads.lease) {
                return Err(f);
            }
        },
        ProtocolCall::PublishVersion(c) => {
            if let Err(f) = required_operation_id(operation_id) {
                return Err(f);
            }
            if let Err(f) = require_execution_workspace(
                caller_ok,
                c.execution_id.as_str(),
                c.workspace_id.as_str(),
                &reads.execution,
            ) {
                return Err(f);
            }
            if reads.operation.is_none() {
                if let Err(f) = require_workspace_revision(
                    c.workspace_id.as_str(),
                    c.expected_workspace_revision,
                    &reads.workspace,
                ) {
                    return Err(f);
                }
            }
            if let Err(f) = require_lease(caller_ok, &c.lease, &reads.lease) {
                return Err(f);
            }
        },
        ProtocolCall::SetExecutionCurrentVersion(c) => {
            if let Err(f) = require_execution_version_revisions(
                caller_ok,
                c.execution_id.as_str(),
                c.lease.workspace_id.as_str(),
                c.version_id.as_str(),
                c.expected_execution_revision,
                c.expected_workspace_revision,
                &reads.execution,
                &reads.workspace,
            ) {
                return Err(f);
            }
            if let Err(f) = require_lease(caller_ok, &c.lease, &reads.lease) {
                return Err(f);
            }
        },
        ProtocolCall::CreateCheckpoint(c) => {
            if let Err(f) = require_execution_workspace(
                caller_ok,
                c.execution_id.as_str(),
                c.workspace_id.as_str(),
                &reads.execution,
            ) {
                return Err(f);
            }
        },
        ProtocolCall::MaterializeVersion(c) => {
            if let Err(f) = require_execution_workspace(
                caller_ok,
                c.execution_id.as_str(),
                c.workspace_id.as_str(),
                &reads.execution,
            ) {
                return Err(f);
            }
            if let Err(f) = require_workspace_revision(
                c.workspace_id.as_str(),
                c.expected_workspace_revision,
                &reads.workspace,
            ) {
                return Err(f);
            }
            if let Err(f) = require_lease(caller_ok, &c.lease, &reads.lease) {
                return Err(f);
            }
        },
        _ => {},
    }
    Ok(None)
}

#[verifier::rlimit(60)]
fn operation_checks(
    caller: &str,
    operation_id: &Option<String>,
    call: &ProtocolCall,
    reads: &DispatchReads,
) -> (g: Result<Option<ProtocolResult>, ProtocolFailure>)
    requires
        call is StartOperation || call is FinishOperation || call is GetOperation,
    ensures
        checks_outcome(caller@, *operation_id, *call, *reads, g),
{
    let caller_ok = caller;
    match call {
        ProtocolCall::StartOperation(c) => {
            if let Err(f) = required_operation_id(operation_id) {
                return Err(f);
            }
            if let Err(f) = require_execution_owner(caller_ok, c.execution_id.as_str(), &reads.execution) {
                return Err(f);
            }
            match &reads.execution {
                Some(e) => {
                    if let Err(f) = check_operation_start(e, c.execution_id.as_str(), c.action.as_str()) {
                        return Err(f);
                    }
                    if let Some(workspace_id) = &e.workspace_id {
                        if reads.workspace.is_none() {
                            return Err(
                                ProtocolFailure::not_found("workspace", workspace_id.as_str()),
                            );
                        }
                    }
                },
                None => {
                    return Err(
                        ProtocolFailure::not_found("execution", c.execution_id.as_str()),
                    );
                },
            }
        },
        ProtocolCall::FinishOperation(c) => {
            let operation_id = match required_operation_id(operation_id) {
                Ok(id) => id,
                Err(f) => {
                    return Err(f);
                },
            };
            if let Err(f) = require_execution_owner(caller_ok, c.execution_id.as_str(), &reads.execution) {
                return Err(f);
            }
            if let Err(f) = require_operation_owner(caller_ok, operation_id, &reads.operation) {
                return Err(f);
            }
            if let Err(f) = validate_operation_outcome_command(c) {
                return Err(f);
            }
        },
        ProtocolCall::GetOperation(q) => {
            if let Err(f) = require_operation_owner(caller_ok, q.id.as_str(), &reads.operation) {
                return Err(f);
            }
        },
        _ => {},
    }
    Ok(None)
}



/// A response is framed for a request: the supported protocol version, the
/// request's own identities, and a result exactly when it succeeded and an
/// error exactly when it did not.
pub open spec fn response_framed(
    r: ProtocolResponse,
    request_id: String,
    operation_id: Option<String>,
) -> bool {
    &&& r.protocol_version@ == EXTERNAL_AGENT_PROTOCOL_VERSION@
    &&& r.request_id == request_id
    &&& r.operation_id == operation_id
    &&& (r.status == ProtocolStatus::Success <==> r.result is Some)
    &&& (r.status == ProtocolStatus::Success <==> r.error is None)
}

/// `r` is the error response carrying the failure `f`.
pub open spec fn carries_failure(r: ProtocolResponse, f: ProtocolFailure) -> bool {
    &&& r.status == ProtocolStatus::Error
    &&& r.error matches Some(e) && e.code == f.code && e.message == f.message && e.retryable
        == f.retryable && e.details == f.details
}

/// `r` is an error response with `code` and `message`.
pub open spec fn error_response(r: ProtocolResponse, code: ProtocolErrorCode, message: Seq<char>) -> bool {
    r.status == ProtocolStatus::Error && (r.error matches Some(e) && e.code == code && e.message@
        == message)
}

/// What handling one decoded request does next.
#[derive(Debug)]
pub enum HandleStep {
    /// Answer with this response; nothing is written.
    Respond(ProtocolResponse),
    /// Register the caller's Agent identity, then answer with the outcome.
    Register { request_id: String, operation_id: Option<String>, registration: RegisterAgentRequest },
    /// Perform the authenticated call's durable work as `caller`, then
    /// answer with the outcome.
    Act { request_id: String, operation_id: Option<String>, caller: String, call: ProtocolCall },
}

/// Handle one decoded request up to its durable work: the envelope, then
/// `hello`, then registration of the caller's own identity, then for every
/// other call a registered caller and the call's own checks
/// ([`dispatch_decision`]). `registered` is the caller's Agent row and
/// `reads` the rows the call's checks read.
pub fn handle_step(request: ProtocolRequest, registered: &Option<AgentIdentity>, reads: &DispatchReads) -> (r:
    HandleStep)
    ensures
        r matches HandleStep::Respond(resp) ==> response_framed(
            resp,
            request.request_id,
            request.operation_id,
        ),
        r matches HandleStep::Register { request_id, operation_id, .. } ==> request_id
            == request.request_id && operation_id == request.operation_id,
        r matches HandleStep::Act { request_id, operation_id, .. } ==> request_id == request.request_id
            && operation_id == request.operation_id,
        header_problem(request) matches Some(label) ==> (r matches HandleStep::Respond(resp)
            && error_response(resp, ProtocolErrorCode::ValidationError, label + " must not be empty"@)),
        (header_problem(request) is None && request.protocol_version@
            != EXTERNAL_AGENT_PROTOCOL_VERSION@) ==> (r matches HandleStep::Respond(resp)
            && error_response(resp, ProtocolErrorCode::UnsupportedVersion, "protocol version is not supported"@)),
        (header_problem(request) is None && request.protocol_version@
            == EXTERNAL_AGENT_PROTOCOL_VERSION@) ==> match request.call {
            ProtocolCall::Hello => r matches HandleStep::Respond(resp) && resp.status
                == ProtocolStatus::Success && resp.result matches Some(ProtocolResult::Hello(_)),
            ProtocolCall::RegisterAgent(c) => match request.caller_agent_id {
                None => r matches HandleStep::Respond(resp) && error_response(
                    resp,
                    ProtocolErrorCode::Unauthorized,
                    "caller Agent identity is required"@,
                ),
                Some(caller) => if caller@ == c.agent_id@ {
                    r matches HandleStep::Register { registration, .. } && registration.agent_id
                        == c.agent_id
                } else {
                    r matches HandleStep::Respond(resp) && error_response(
                        resp,
                        ProtocolErrorCode::Forbidden,
                        "an Agent may register only its own asserted identity"@,
                    )
                },
            },
            _ => match request.caller_agent_id {
                None => r matches HandleStep::Respond(resp) && error_response(
                    resp,
                    ProtocolErrorCode::Unauthorized,
                    "caller Agent identity is required"@,
                ),
                Some(caller) => if registered is None {
                    r matches HandleStep::Respond(resp) && error_response(
                        resp,
                        ProtocolErrorCode::Unauthorized,
                        "caller Agent identity is not registered"@,
                    )
                } else if !dispatch_admits(caller@, request.operation_id, request.call, *reads) {
                    r matches HandleStep::Respond(resp) && exists|f: ProtocolFailure|
                        #[trigger] dispatch_refusal(caller@, request.operation_id, request.call, *reads, f)
                            && carries_failure(resp, f)
                } else {
                    ||| (r matches HandleStep::Act { caller: who, call, .. } && who@ == caller@
                        && call == request.call)
                    ||| (r matches HandleStep::Respond(resp) && resp.status
                        == ProtocolStatus::Success)
                },
            },
        },
{
    let request_id = request.request_id.clone();
    let operation_id = clone_opt(&request.operation_id);
    if let Err(f) = check_envelope(&request) {
        return HandleStep::Respond(ProtocolResponse::failure(request_id, operation_id, f));
    }
    let ghost received = request;
    let ProtocolRequest { protocol_version, request_id: rid, caller_agent_id, issued_at, operation_id: oid, call } =
        request;
    match call {
        ProtocolCall::Hello => HandleStep::Respond(
            ProtocolResponse::success(request_id, operation_id, ProtocolResult::Hello(hello_result())),
        ),
        ProtocolCall::RegisterAgent(command) => {
            let caller = match required_caller(&caller_agent_id) {
                Ok(c) => c,
                Err(f) => {
                    return HandleStep::Respond(ProtocolResponse::failure(request_id, operation_id, f));
                },
            };
            match register_agent_request(caller, command, issued_at) {
                Ok(registration) => HandleStep::Register { request_id, operation_id, registration },
                Err(f) => HandleStep::Respond(ProtocolResponse::failure(request_id, operation_id, f)),
            }
        },
        call => {
            let caller = match required_caller(&caller_agent_id) {
                Ok(c) => c,
                Err(f) => {
                    return HandleStep::Respond(ProtocolResponse::failure(request_id, operation_id, f));
                },
            };
            if let Err(f) = require_registered_agent(caller, registered) {
                return HandleStep::Respond(ProtocolResponse::failure(request_id, operation_id, f));
            }
            let caller_text = text_of(caller);
            let rebuilt = ProtocolRequest {
                protocol_version,
                request_id: rid,
                caller_agent_id: clone_opt(&caller_agent_id),
                issued_at,
                operation_id: oid,
                call,
            };
            assert(rebuilt.call == received.call);
            match dispatch_decision(caller, rebuilt, reads) {
                DispatchStep::Refuse(f) => HandleStep::Respond(
                    ProtocolResponse::failure(request_id, operation_id, f),
                ),
                DispatchStep::Answer(x) => HandleStep::Respond(
                    ProtocolResponse::success(request_id, operation_id, x),
                ),
                DispatchStep::Act(call) => HandleStep::Act {
                    request_id,
                    operation_id,
                    caller: caller_text,
                    call,
                },
            }
        },
    }
}

} // verus!
