//! Provider-neutral Agent control: the requests and views the control facade
//! exchanges, and the rules of a Version publication.
//!
//! A publication is checked in stages against the durable rows the caller
//! looked up: the request itself, the workspace lease, the parent Version,
//! the operation indexes, the recorded before-state, the Snapshot input and
//! the staged workspace row. Each stage is a function of those rows.
use crate::canonical::append_chars;
use crate::error::{text_of, PongError};
use crate::json::{number_from_i64, JsonNumber, JsonValue};
use crate::records::{
    AgentIdentity, CheckpointRecord, ExecutionRecord, HandoffRecord, LeaseRecord, LeaseToken,
    OperationEnvelope, OperationRecord, OperationRef, ResumeRecord, SnapshotRecord, TaskRecord,
    VersionRecord, WorkspaceRecord, OPERATION_SCHEMA_VERSION,
};
use crate::text::{
    chars_of, clone_opt, copy_opt, is_blank, opt_equal, opt_is, opt_text, str_equal, str_is_blank,
    string_from_chars,
};
use vstd::prelude::*;

verus! {

broadcast use vstd::string::group_string_axioms;

#[derive(Debug, Clone, PartialEq, Eq)]
pub struct RegisterAgentRequest {
    pub agent_id: String,
    pub provider: String,
    pub display_name: Option<String>,
    pub created_at: String,
}

#[derive(Debug, Clone, PartialEq, Eq)]
pub struct CreateTaskRequest {
    pub task_id: String,
    pub project_id: String,
    pub goal: String,
    pub context_ref: Option<String>,
    pub created_at: String,
}

#[derive(Debug, Clone, PartialEq, Eq)]
pub struct CreateExecutionRequest {
    pub execution_id: String,
    pub task_id: String,
    pub agent_id: String,
    pub parent_execution_id: Option<String>,
    pub workspace_id: Option<String>,
    pub base_version_id: Option<String>,
    pub current_version_id: Option<String>,
    pub created_at: String,
}

#[derive(Debug, Clone, PartialEq, Eq)]
pub struct CreateWorkspaceRequest {
    pub workspace_id: String,
    pub project_id: String,
    /// The local directory the workspace binds, as a path text.
    pub path: String,
    pub branch_ref: Option<String>,
    pub environment_id: Option<String>,
    pub now: String,
}

#[derive(Debug, Clone, PartialEq, Eq)]
pub struct AcquireWorkspaceRequest {
    pub workspace_id: String,
    pub agent_id: String,
    pub now_ms: i64,
    pub ttl_ms: i64,
}

#[derive(Debug, Clone, PartialEq, Eq)]
pub struct RenewWorkspaceRequest {
    pub lease: LeaseToken,
    pub now_ms: i64,
    pub ttl_ms: i64,
}

#[derive(Debug, Clone, PartialEq, Eq)]
pub struct ReleaseWorkspaceRequest {
    pub lease: LeaseToken,
    pub now_ms: i64,
}

#[derive(Debug, Clone, PartialEq, Eq)]
pub struct PublishVersionRequest {
    pub workspace_id: String,
    pub lease: LeaseToken,
    pub expected_workspace_revision: i64,
    pub now_ms: i64,
    pub created_at: String,
    pub operation_id: String,
    pub request_id: String,
    pub session_id: Option<String>,
    pub tool: Option<String>,
    pub parent_version_id: Option<String>,
    pub update_version_head: bool,
}

#[derive(Debug, Clone, PartialEq, Eq)]
pub struct WorkspaceView {
    pub workspace_id: String,
    pub project_id: String,
    pub driver: String,
    pub locator: String,
    pub branch_ref: Option<String>,
    pub head: Option<String>,
    pub version_head_id: Option<String>,
    pub environment_id: Option<String>,
    pub status: String,
    pub revision: i64,
    pub created_at: String,
    pub updated_at: String,
}

#[derive(Debug, Clone, PartialEq, Eq)]
pub struct LeaseView {
    pub workspace_id: String,
    pub agent_id: Option<String>,
    pub epoch: i64,
    pub expires_at_ms: i64,
    pub acquired_at_ms: i64,
    pub active: bool,
}

#[derive(Debug, Clone, PartialEq, Eq)]
pub struct SnapshotView {
    pub snapshot_id: String,
    pub root_digest: String,
    pub workspace_id: String,
    pub project_id: String,
    pub environment_id: Option<String>,
    pub file_count: usize,
    pub total_bytes: u64,
    pub created_at: String,
}

#[derive(Debug, Clone, PartialEq, Eq)]
pub struct PublishVersionResult {
    pub snapshot: SnapshotView,
    pub version: VersionRecord,
    pub workspace: WorkspaceView,
}

/// The workspace state a Version publication recorded before its effect.
#[derive(Debug, Clone, PartialEq, Eq)]
pub struct PublicationBeforeState {
    pub workspace_revision: i64,
    pub workspace_head: Option<String>,
    pub version_head_id: Option<String>,
}

#[derive(Debug, Clone, PartialEq, Eq)]
pub struct StateView {
    pub agent: AgentIdentity,
    pub task: TaskRecord,
    pub execution: ExecutionRecord,
    pub workspace: Option<WorkspaceView>,
    pub lease: Option<LeaseView>,
    pub base_version: Option<VersionRecord>,
    pub current_version: Option<VersionRecord>,
    pub checkpoints: Vec<CheckpointRecord>,
    pub handoffs: Vec<HandoffRecord>,
    pub resume: Option<ResumeRecord>,
}

/// The rows the state of an Execution is read from: the Execution, and
/// what it names: its Task, Agent, workspace, the workspace's lease, base
/// and current Versions, the Task's Checkpoints and Handoffs, and the
/// Execution's resume record.
#[derive(Debug, Clone, PartialEq, Eq)]
pub struct StateRecords {
    pub execution: Option<ExecutionRecord>,
    pub task: Option<TaskRecord>,
    pub agent: Option<AgentIdentity>,
    pub workspace: Option<WorkspaceRecord>,
    pub lease: Option<LeaseRecord>,
    pub base_version: Option<VersionRecord>,
    pub current_version: Option<VersionRecord>,
    pub checkpoints: Vec<CheckpointRecord>,
    pub handoffs: Vec<HandoffRecord>,
    pub resume: Option<ResumeRecord>,
}

/// A workspace row as the control facade shows it.
pub open spec fn workspace_view_of(record: WorkspaceRecord) -> WorkspaceView {
    WorkspaceView {
        workspace_id: record.workspace_id,
        project_id: record.project_id,
        driver: record.driver,
        locator: record.locator,
        branch_ref: record.branch_ref,
        head: record.head,
        version_head_id: record.version_head_id,
        environment_id: record.environment_id,
        status: record.status,
        revision: record.revision,
        created_at: record.created_at,
        updated_at: record.updated_at,
    }
}

/// A stored lease as seen at `now_ms`.
pub open spec fn lease_view_of(record: LeaseRecord, now_ms: i64) -> LeaseView {
    LeaseView {
        workspace_id: record.workspace_id,
        agent_id: record.agent_id,
        epoch: record.epoch,
        expires_at_ms: record.expires_at_ms,
        acquired_at_ms: record.acquired_at_ms,
        active: record.agent_id is Some && record.expires_at_ms > now_ms,
    }
}

impl StateView {
    /// The state of an Execution at `now_ms` from its rows: a missing
    /// Execution is not found; a missing Task or Agent is an integrity
    /// failure; the workspace and lease are shown as views.
    pub fn from_records(records: StateRecords, now_ms: i64) -> (r: Result<StateView, PongError>)
        ensures
            records.execution is None ==> (r matches Err(PongError::NotFound(m)) && m@
                == "execution does not exist"@),
            (records.execution is Some && records.task is None) ==> (r matches Err(
                PongError::Integrity(m),
            ) && m@ == "execution task is missing"@),
            (records.execution is Some && records.task is Some && records.agent is None) ==> (
            r matches Err(PongError::Integrity(m)) && m@ == "execution agent is missing"@),
            r is Ok <==> records.execution is Some && records.task is Some && records.agent is Some,
            r matches Ok(v) ==> {
                &&& Some(v.execution) == records.execution
                &&& Some(v.task) == records.task
                &&& Some(v.agent) == records.agent
                &&& v.workspace == match records.workspace {
                    Some(w) => Some(workspace_view_of(w)),
                    None => None,
                }
                &&& v.lease == match records.lease {
                    Some(l) => Some(lease_view_of(l, now_ms)),
                    None => None,
                }
                &&& v.base_version == records.base_version
                &&& v.current_version == records.current_version
                &&& v.checkpoints@ == records.checkpoints@
                &&& v.handoffs@ == records.handoffs@
                &&& v.resume == records.resume
            },
    {
        let execution = match records.execution {
            Some(e) => e,
            None => {
                return Err(PongError::NotFound(text_of("execution does not exist")));
            },
        };
        let task = match records.task {
            Some(t) => t,
            None => {
                return Err(integrity("execution task is missing"));
            },
        };
        let agent = match records.agent {
            Some(a) => a,
            None => {
                return Err(integrity("execution agent is missing"));
            },
        };
        let workspace = match records.workspace {
            Some(w) => Some(WorkspaceView::from_record(w)),
            None => None,
        };
        let lease = match records.lease {
            Some(l) => Some(LeaseView::from_record(l, now_ms)),
            None => None,
        };
        Ok(
            StateView {
                agent,
                task,
                execution,
                workspace,
                lease,
                base_version: records.base_version,
                current_version: records.current_version,
                checkpoints: records.checkpoints,
                handoffs: records.handoffs,
                resume: records.resume,
            },
        )
    }
}

impl WorkspaceView {
    pub fn from_record(record: WorkspaceRecord) -> (r: WorkspaceView)
        ensures
            r.workspace_id == record.workspace_id,
            r.project_id == record.project_id,
            r.driver == record.driver,
            r.locator == record.locator,
            r.branch_ref == record.branch_ref,
            r.head == record.head,
            r.version_head_id == record.version_head_id,
            r.environment_id == record.environment_id,
            r.status == record.status,
            r.revision == record.revision,
            r.created_at == record.created_at,
            r.updated_at == record.updated_at,
    {
        WorkspaceView {
            workspace_id: record.workspace_id,
            project_id: record.project_id,
            driver: record.driver,
            locator: record.locator,
            branch_ref: record.branch_ref,
            head: record.head,
            version_head_id: record.version_head_id,
            environment_id: record.environment_id,
            status: record.status,
            revision: record.revision,
            created_at: record.created_at,
            updated_at: record.updated_at,
        }
    }
}

impl LeaseView {
    /// A stored lease as seen at `now_ms`: active while it has an owner and
    /// has not yet expired.
    pub fn from_record(record: LeaseRecord, now_ms: i64) -> (r: LeaseView)
        ensures
            r.active == (record.agent_id is Some && record.expires_at_ms > now_ms),
            r.workspace_id == record.workspace_id,
            r.agent_id == record.agent_id,
            r.epoch == record.epoch,
            r.expires_at_ms == record.expires_at_ms,
            r.acquired_at_ms == record.acquired_at_ms,
    {
        let active = record.agent_id.is_some() && record.expires_at_ms > now_ms;
        LeaseView {
            workspace_id: record.workspace_id,
            agent_id: record.agent_id,
            epoch: record.epoch,
            expires_at_ms: record.expires_at_ms,
            acquired_at_ms: record.acquired_at_ms,
            active,
        }
    }
}

impl SnapshotView {
    pub fn from_record(record: SnapshotRecord) -> (r: SnapshotView)
        ensures
            r.snapshot_id == record.snapshot_id,
            r.root_digest == record.root_digest,
            r.workspace_id == record.workspace_id,
            r.project_id == record.project_id,
            r.environment_id == record.environment_id,
            r.file_count == record.file_count,
            r.total_bytes == record.total_bytes,
            r.created_at == record.created_at,
    {
        SnapshotView {
            snapshot_id: record.snapshot_id,
            root_digest: record.root_digest,
            workspace_id: record.workspace_id,
            project_id: record.project_id,
            environment_id: record.environment_id,
            file_count: record.file_count,
            total_bytes: record.total_bytes,
            created_at: record.created_at,
        }
    }
}

impl PublicationBeforeState {
    /// The state a publication records from the workspace row it starts on.
    pub fn from_workspace(workspace: &WorkspaceRecord) -> (r: PublicationBeforeState)
        ensures
            r.workspace_revision == workspace.revision,
            opt_text(r.workspace_head) == opt_text(workspace.head),
            opt_text(r.version_head_id) == opt_text(workspace.version_head_id),
    {
        PublicationBeforeState {
            workspace_revision: workspace.revision,
            workspace_head: copy_opt(&workspace.head),
            version_head_id: copy_opt(&workspace.version_head_id),
        }
    }
}

/// The message of the first check a publication request fails, in the
/// order the checks are made.
pub open spec fn publish_request_problem(r: PublishVersionRequest) -> Option<Seq<char>> {
    if is_blank(r.workspace_id@) {
        Some("workspace id must not be empty"@)
    } else if is_blank(r.lease.workspace_id@) {
        Some("lease workspace id must not be empty"@)
    } else if is_blank(r.lease.agent_id@) {
        Some("lease agent id must not be empty"@)
    } else if is_blank(r.created_at@) {
        Some("version created_at must not be empty"@)
    } else if is_blank(r.operation_id@) {
        Some("operation id must not be empty"@)
    } else if is_blank(r.request_id@) {
        Some("request id must not be empty"@)
    } else if r.session_id matches Some(s) && is_blank(s@) {
        Some("session id must not be empty"@)
    } else if r.tool matches Some(s) && is_blank(s@) {
        Some("tool must not be empty"@)
    } else if r.parent_version_id matches Some(s) && is_blank(s@) {
        Some("parent version id must not be empty"@)
    } else if r.expected_workspace_revision < 0 {
        Some("workspace revision must not be negative"@)
    } else {
        None
    }
}

/// An accepted publication request names its workspace, lease, time,
/// operation and request, carries no blank optional text, and expects a
/// revision that is not negative.
pub proof fn lemma_acceptable_publication_requests(r: PublishVersionRequest)
    ensures
        publish_request_problem(r) is None <==> (!is_blank(r.workspace_id@) && !is_blank(
            r.lease.workspace_id@,
        ) && !is_blank(r.lease.agent_id@) && !is_blank(r.created_at@) && !is_blank(
            r.operation_id@,
        ) && !is_blank(r.request_id@) && (r.session_id is Some ==> !is_blank(r.session_id->0@)) && (
        r.tool is Some ==> !is_blank(r.tool->0@)) && (r.parent_version_id is Some ==> !is_blank(
            r.parent_version_id->0@,
        )) && r.expected_workspace_revision >= 0),
{
}

fn present_and_blank(value: &Option<String>) -> (b: bool)
    ensures
        b == (*value matches Some(s) && is_blank(s@)),
{
    match value {
        Some(s) => str_is_blank(s.as_str()),
        None => false,
    }
}

fn invalid_input(message: &str) -> (e: PongError)
    ensures
        e matches PongError::InvalidInput(m) && m@ == message@,
{
    PongError::InvalidInput(text_of(message))
}

fn integrity(message: &str) -> (e: PongError)
    ensures
        e matches PongError::Integrity(m) && m@ == message@,
{
    PongError::Integrity(text_of(message))
}

fn conflict(message: &str) -> (e: PongError)
    ensures
        e matches PongError::Conflict(m) && m@ == message@,
{
    PongError::Conflict(text_of(message))
}

/// Check a publication request on its own: every identity is non-blank,
/// every optional text that is present is non-blank, and the expected
/// revision is not negative.
pub fn validate_publish_request(request: &PublishVersionRequest) -> (r: Result<(), PongError>)
    ensures
        r is Ok <==> publish_request_problem(*request) is None,
        publish_request_problem(*request) matches Some(m) ==> (r matches Err(
            PongError::InvalidInput(t),
        ) && t@ == m),
{
    if str_is_blank(request.workspace_id.as_str()) {
        return Err(invalid_input("workspace id must not be empty"));
    }
    if str_is_blank(request.lease.workspace_id.as_str()) {
        return Err(invalid_input("lease workspace id must not be empty"));
    }
    if str_is_blank(request.lease.agent_id.as_str()) {
        return Err(invalid_input("lease agent id must not be empty"));
    }
    if str_is_blank(request.created_at.as_str()) {
        return Err(invalid_input("version created_at must not be empty"));
    }
    if str_is_blank(request.operation_id.as_str()) {
        return Err(invalid_input("operation id must not be empty"));
    }
    if str_is_blank(request.request_id.as_str()) {
        return Err(invalid_input("request id must not be empty"));
    }
    if present_and_blank(&request.session_id) {
        return Err(invalid_input("session id must not be empty"));
    }
    if present_and_blank(&request.tool) {
        return Err(invalid_input("tool must not be empty"));
    }
    if present_and_blank(&request.parent_version_id) {
        return Err(invalid_input("parent version id must not be empty"));
    }
    if request.expected_workspace_revision < 0 {
        return Err(invalid_input("workspace revision must not be negative"));
    }
    Ok(())
}

/// The lease presented with a publication still holds the workspace: it
/// names the workspace, its owner and epoch match the stored lease, and the
/// stored lease has not expired at the request's time.
pub open spec fn publish_lease_holds(request: PublishVersionRequest, lease: LeaseRecord) -> bool {
    &&& request.lease.workspace_id@ == request.workspace_id@
    &&& opt_text(lease.agent_id) == Some(request.lease.agent_id@)
    &&& lease.epoch == request.lease.epoch
    &&& lease.expires_at_ms > request.now_ms
}

/// A stale lease never authorizes a publication: a stored lease that has
/// expired by the request's time, belongs to another Agent or epoch, or a
/// lease presented for another workspace, does not hold.
pub proof fn lemma_stale_leases_never_publish(request: PublishVersionRequest, lease: LeaseRecord)
    ensures
        lease.expires_at_ms <= request.now_ms ==> !publish_lease_holds(request, lease),
        lease.epoch != request.lease.epoch ==> !publish_lease_holds(request, lease),
        opt_text(lease.agent_id) != Some(request.lease.agent_id@) ==> !publish_lease_holds(
            request,
            lease,
        ),
        request.lease.workspace_id@ != request.workspace_id@ ==> !publish_lease_holds(request, lease),
{
}

/// Check the presented lease against the stored lease of the workspace.
pub fn validate_publish_lease(request: &PublishVersionRequest, stored: &Option<LeaseRecord>) -> (r:
    Result<(), PongError>)
    ensures
        r is Ok <==> (*stored matches Some(lease) && publish_lease_holds(*request, lease)),
        *stored is None ==> (r matches Err(PongError::Conflict(m)) && m@
            == "workspace lease is missing"@),
        (*stored matches Some(lease) && !publish_lease_holds(*request, lease)) ==> (r matches Err(
            PongError::Conflict(m),
        ) && m@ == "workspace lease is stale or expired"@),
{
    match stored {
        None => Err(conflict("workspace lease is missing")),
        Some(lease) => {
            if !str_equal(request.lease.workspace_id.as_str(), request.workspace_id.as_str())
                || !opt_is(&lease.agent_id, request.lease.agent_id.as_str()) || lease.epoch
                != request.lease.epoch || lease.expires_at_ms <= request.now_ms {
                return Err(conflict("workspace lease is stale or expired"));
            }
            Ok(())
        },
    }
}

/// A parent Version belongs to the workspace's scope: the same workspace,
/// project and environment.
pub open spec fn parent_in_scope(workspace: WorkspaceRecord, parent: VersionRecord) -> bool {
    &&& parent.workspace_id@ == workspace.workspace_id@
    &&& parent.project_id@ == workspace.project_id@
    &&& opt_text(parent.environment_id) == opt_text(workspace.environment_id)
}

/// Check the parent a publication names. `parent` is the Version stored
/// under `parent_version_id`, when one is named and exists.
pub fn validate_publish_parent(
    workspace: &WorkspaceRecord,
    parent_version_id: &Option<String>,
    parent: &Option<VersionRecord>,
) -> (r: Result<(), PongError>)
    ensures
        *parent_version_id is None ==> r is Ok,
        *parent_version_id is Some ==> (r is Ok <==> (*parent matches Some(p) && parent_in_scope(
            *workspace,
            p,
        ))),
        (*parent_version_id is Some && *parent is None) ==> (r matches Err(PongError::NotFound(m))
            && m@ == "version parent does not exist"@),
        (*parent_version_id is Some && (*parent matches Some(p) && !parent_in_scope(*workspace, p)))
            ==> (r matches Err(PongError::Conflict(m)) && m@
            == "version parent scope does not match workspace"@),
{
    if parent_version_id.is_none() {
        return Ok(());
    }
    match parent {
        None => Err(PongError::NotFound(text_of("version parent does not exist"))),
        Some(p) => {
            if !str_equal(p.workspace_id.as_str(), workspace.workspace_id.as_str()) || !str_equal(
                p.project_id.as_str(),
                workspace.project_id.as_str(),
            ) || !opt_equal(&p.environment_id, &workspace.environment_id) {
                return Err(conflict("version parent scope does not match workspace"));
            }
            Ok(())
        },
    }
}

/// Which earlier operation a publication request resumes, given the
/// operation stored under its operation id and the one stored under its
/// request identity: `Ok(true)` when both name the same operation (a retry),
/// `Ok(false)` when neither exists (a first attempt).
pub fn publish_operation_for_request(
    by_id: &Option<OperationRecord>,
    by_request: &Option<OperationRecord>,
    request_id: &str,
) -> (r: Result<bool, PongError>)
    ensures
        match (*by_id, *by_request) {
            (Some(a), Some(b)) => if a.operation_id@ == b.operation_id@ {
                r == Ok::<bool, PongError>(true)
            } else {
                r matches Err(PongError::Integrity(m)) && m@
                    == "Version publication operation indexes disagree"@
            },
            (None, Some(_)) => r matches Err(PongError::IdempotencyKeyReuse(m)) && m@
                == request_id@,
            (Some(_), None) => r matches Err(PongError::Conflict(m)) && m@
                == "operation identity is already used by another request"@,
            (None, None) => r == Ok::<bool, PongError>(false),
        },
{
    match (by_id, by_request) {
        (Some(a), Some(b)) => {
            if str_equal(a.operation_id.as_str(), b.operation_id.as_str()) {
                Ok(true)
            } else {
                Err(integrity("Version publication operation indexes disagree"))
            }
        },
        (None, Some(_)) => Err(PongError::IdempotencyKeyReuse(text_of(request_id))),
        (Some(_), None) => Err(conflict("operation identity is already used by another request")),
        (None, None) => Ok(false),
    }
}

/// The before-state object a publication operation records: an object
/// whose members are only `workspace_revision` (an integer),
/// `workspace_head` and `version_head_id` (each a text or null, and absent
/// means null); the revision member is required.
pub open spec fn before_state_member_ok(name: Seq<char>, value: JsonValue) -> bool {
    if name == "workspace_revision"@ {
        value matches JsonValue::Number(n) && (n is NegInt || (n matches JsonNumber::PosInt(u) && u
            <= i64::MAX))
    } else if name == "workspace_head"@ || name == "version_head_id"@ {
        value is Null || value is String
    } else {
        false
    }
}

/// The members of a JSON object, when it is one.
pub open spec fn object_entries(value: JsonValue) -> Option<Seq<(String, JsonValue)>> {
    match value {
        JsonValue::Object(entries) => Some(entries@),
        _ => None,
    }
}

/// The value of the last member of `entries` named `name`: later members
/// of one name replace earlier ones.
pub open spec fn last_member(entries: Seq<(String, JsonValue)>, name: Seq<char>) -> Option<
    JsonValue,
>
    decreases entries.len(),
{
    if entries.len() == 0 {
        None
    } else if entries.last().0@ == name {
        Some(entries.last().1)
    } else {
        last_member(entries.drop_last(), name)
    }
}

/// The integer a well-formed revision member holds.
pub open spec fn json_integer(value: JsonValue) -> int {
    match value {
        JsonValue::Number(JsonNumber::PosInt(u)) => u as int,
        JsonValue::Number(JsonNumber::NegInt(i)) => i as int,
        _ => 0,
    }
}

/// The text a text-or-null member holds; an absent member is null.
pub open spec fn json_opt_text(value: Option<JsonValue>) -> Option<Seq<char>> {
    match value {
        Some(JsonValue::String(s)) => Some(s@),
        _ => None,
    }
}

/// Whether `value` is a well-formed before-state object.
pub open spec fn before_state_decodes(value: JsonValue) -> bool {
    match object_entries(value) {
        Some(entries) => {
            &&& forall|i: int|
                0 <= i < entries.len() ==> before_state_member_ok(
                    (#[trigger] entries[i]).0@,
                    entries[i].1,
                )
            &&& last_member(entries, "workspace_revision"@) is Some
        },
        None => false,
    }
}

/// The revision a well-formed before-state object records.
pub open spec fn decoded_revision(value: JsonValue) -> int {
    json_integer(last_member(object_entries(value)->0, "workspace_revision"@)->0)
}

/// Read a recorded before-state object.
pub fn before_state_from_json(value: &JsonValue) -> (r: Option<PublicationBeforeState>)
    ensures
        r is Some <==> before_state_decodes(*value),
        r matches Some(s) ==> {
            let entries = object_entries(*value)->0;
            &&& s.workspace_revision == decoded_revision(*value)
            &&& opt_text(s.workspace_head) == json_opt_text(
                last_member(entries, "workspace_head"@),
            )
            &&& opt_text(s.version_head_id) == json_opt_text(
                last_member(entries, "version_head_id"@),
            )
        },
{
    let entries = match value {
        JsonValue::Object(entries) => entries,
        _ => {
            return None;
        },
    };
    let revision_name = "workspace_revision";
    let head_name = "workspace_head";
    let version_name = "version_head_id";
    proof {
        reveal_strlit("workspace_revision");
        reveal_strlit("workspace_head");
        reveal_strlit("version_head_id");
        assert("workspace_revision"@.len() != "workspace_head"@.len());
        assert("workspace_revision"@.len() != "version_head_id"@.len());
        assert("workspace_head"@.len() != "version_head_id"@.len());
    }
    let mut revision: Option<i64> = None;
    let mut head: Option<String> = None;
    let mut version_head: Option<String> = None;
    let mut i: usize = 0;
    while i < entries.len()
        invariant
            *value == JsonValue::Object(*entries),
            revision_name@ == "workspace_revision"@,
            head_name@ == "workspace_head"@,
            version_name@ == "version_head_id"@,
            "workspace_revision"@ != "workspace_head"@,
            "workspace_revision"@ != "version_head_id"@,
            "workspace_head"@ != "version_head_id"@,
            i <= entries@.len(),
            forall|k: int|
                0 <= k < i ==> before_state_member_ok(
                    (#[trigger] entries@[k]).0@,
                    entries@[k].1,
                ),
            revision is Some <==> last_member(entries@.take(i as int), "workspace_revision"@) is Some,
            revision matches Some(v) ==> v == json_integer(
                last_member(entries@.take(i as int), "workspace_revision"@)->0,
            ),
            opt_text(head) == json_opt_text(last_member(entries@.take(i as int), "workspace_head"@)),
            opt_text(version_head) == json_opt_text(
                last_member(entries@.take(i as int), "version_head_id"@),
            ),
        decreases entries@.len() - i,
    {
        let name = entries[i].0.as_str();
        let member = &entries[i].1;
        let ghost next = entries@.take(i + 1);
        assert(next.drop_last() =~= entries@.take(i as int));
        assert(next.last() == entries@[i as int]);
        if str_equal(name, revision_name) {
            match member {
                JsonValue::Number(JsonNumber::NegInt(n)) => {
                    revision = Some(*n);
                },
                JsonValue::Number(JsonNumber::PosInt(n)) => {
                    if *n > 9223372036854775807u64 {
                        return None;
                    }
                    revision = Some(*n as i64);
                },
                _ => {
                    return None;
                },
            }
        } else if str_equal(name, head_name) {
            match member {
                JsonValue::Null => {
                    head = None;
                },
                JsonValue::String(s) => {
                    head = Some(s.clone());
                },
                _ => {
                    return None;
                },
            }
        } else if str_equal(name, version_name) {
            match member {
                JsonValue::Null => {
                    version_head = None;
                },
                JsonValue::String(s) => {
                    version_head = Some(s.clone());
                },
                _ => {
                    return None;
                },
            }
        } else {
            return None;
        }
        i = i + 1;
    }
    assert(entries@.take(entries@.len() as int) =~= entries@);
    match revision {
        None => None,
        Some(workspace_revision) => Some(
            PublicationBeforeState { workspace_revision, workspace_head: head, version_head_id: version_head },
        ),
    }
}

/// `value` is a JSON text when `text` is present and null when it is not.
pub open spec fn json_text_or_null(value: JsonValue, text: Option<Seq<char>>) -> bool {
    match text {
        Some(t) => value matches JsonValue::String(s) && s@ == t,
        None => value is Null,
    }
}

/// `value` is the JSON object a before-state is recorded as: its three
/// members in name order.
pub open spec fn before_state_encoded(state: PublicationBeforeState, value: JsonValue) -> bool {
    &&& value matches JsonValue::Object(entries)
    &&& entries@.len() == 3
    &&& entries@[0].0@ == "version_head_id"@
    &&& json_text_or_null(entries@[0].1, opt_text(state.version_head_id))
    &&& entries@[1].0@ == "workspace_head"@
    &&& json_text_or_null(entries@[1].1, opt_text(state.workspace_head))
    &&& entries@[2].0@ == "workspace_revision"@
    &&& entries@[2].1 == JsonValue::Number(number_from_i64(state.workspace_revision))
}

fn named(name: &str, value: JsonValue) -> (r: (String, JsonValue))
    ensures
        r.0@ == name@,
        r.1 == value,
{
    (text_of(name), value)
}

impl PublicationBeforeState {
    /// The state as the JSON object a publication operation records.
    pub fn to_value(&self) -> (r: JsonValue)
        ensures
            before_state_encoded(*self, r),
    {
        let mut entries: Vec<(String, JsonValue)> = Vec::new();
        entries.push(named("version_head_id", JsonValue::optional_text(&self.version_head_id)));
        entries.push(named("workspace_head", JsonValue::optional_text(&self.workspace_head)));
        entries.push(named("workspace_revision", JsonValue::integer(self.workspace_revision)));
        JsonValue::Object(entries)
    }
}

/// A recorded before-state reads back as the state that was recorded.
pub proof fn lemma_before_state_round_trip(state: PublicationBeforeState, value: JsonValue)
    requires
        before_state_encoded(state, value),
    ensures
        before_state_decodes(value),
        decoded_revision(value) == state.workspace_revision,
        json_opt_text(last_member(object_entries(value)->0, "workspace_head"@)) == opt_text(
            state.workspace_head,
        ),
        json_opt_text(last_member(object_entries(value)->0, "version_head_id"@)) == opt_text(
            state.version_head_id,
        ),
{
    reveal_strlit("workspace_revision");
    reveal_strlit("workspace_head");
    reveal_strlit("version_head_id");
    let entries = object_entries(value)->0;
    assert("workspace_revision"@.len() != "workspace_head"@.len());
    assert("workspace_revision"@.len() != "version_head_id"@.len());
    assert("workspace_head"@.len() != "version_head_id"@.len());
    reveal_with_fuel(last_member, 4);
    assert(entries.drop_last().last() == entries[1]);
    assert(entries.drop_last().drop_last().last() == entries[0]);
    assert forall|i: int| 0 <= i < entries.len() implies before_state_member_ok(
        (#[trigger] entries[i]).0@,
        entries[i].1,
    ) by {
        if i == 2 {
            if state.workspace_revision >= 0 {
                assert((state.workspace_revision as u64) <= i64::MAX);
            }
        }
    }
}

/// The reference to a published Snapshot or Version that an operation
/// names as input.
pub open spec fn ref_is(r: OperationRef, kind: Seq<char>, reference: Seq<char>, media_type: Seq<char>) -> bool {
    &&& r.kind@ == kind
    &&& r.reference@ == reference
    &&& opt_text(r.media_type) == Some(media_type)
}

/// An optional text, or `default` when it is absent.
pub open spec fn text_or(value: Option<String>, default: Seq<char>) -> Seq<char> {
    match value {
        Some(s) => s@,
        None => default,
    }
}

/// The resource object of a publication operation: the workspace, the
/// revision the publication expects and whether it moves the Version head,
/// in name order.
pub open spec fn publication_resource(
    value: JsonValue,
    workspace_id: Seq<char>,
    expected_revision: i64,
    update_version_head: bool,
) -> bool {
    &&& value matches JsonValue::Object(entries)
    &&& entries@.len() == 3
    &&& entries@[0].0@ == "expected_workspace_revision"@
    &&& entries@[0].1 == JsonValue::Number(number_from_i64(expected_revision))
    &&& entries@[1].0@ == "update_version_head"@
    &&& entries@[1].1 == JsonValue::Bool(update_version_head)
    &&& entries@[2].0@ == "workspace_id"@
    &&& entries@[2].1 matches JsonValue::String(w) && w@ == workspace_id
}

fn text_or_default(value: &Option<String>, default: &str) -> (r: String)
    ensures
        r@ == text_or(*value, default@),
{
    match value {
        Some(s) => s.clone(),
        None => text_of(default),
    }
}

fn operation_ref(kind: &str, reference: &str, media_type: &str) -> (r: OperationRef)
    ensures
        ref_is(r, kind@, reference@, media_type@),
{
    OperationRef {
        kind: text_of(kind),
        reference: text_of(reference),
        media_type: Some(text_of(media_type)),
    }
}

/// The envelope a Version publication starts its operation with: the
/// request's identities, the workspace's scope, the Snapshot (and the
/// parent Version, when one is named) as inputs, the expected revision as
/// its resource and the recorded before-state.
pub fn publication_operation(
    request: &PublishVersionRequest,
    workspace: &WorkspaceRecord,
    snapshot: &SnapshotRecord,
    before_state: &PublicationBeforeState,
) -> (r: Result<OperationEnvelope, PongError>)
    ensures
        r matches Ok(e) && {
            &&& e.operation_id@ == request.operation_id@
            &&& e.project_id@ == workspace.project_id@
            &&& e.request_id@ == request.request_id@
            &&& e.agent_id@ == request.lease.agent_id@
            &&& e.session_id@ == text_or(request.session_id, "agent-control"@)
            &&& opt_text(e.workspace_id) == Some(workspace.workspace_id@)
            &&& opt_text(e.environment_id) == opt_text(workspace.environment_id)
            &&& e.parent_operation_id is None
            &&& e.schema_version@ == OPERATION_SCHEMA_VERSION@
            &&& e.started_at@ == request.created_at@
            &&& e.tool@ == text_or(request.tool, "agent-control"@)
            &&& e.action@ == "version.create"@
            &&& e.input_refs@.len() == if request.parent_version_id is Some {
                2int
            } else {
                1int
            }
            &&& ref_is(
                e.input_refs@[0],
                "snapshot"@,
                snapshot.snapshot_id@,
                "application/vnd.pong.snapshot"@,
            )
            &&& request.parent_version_id matches Some(p) ==> ref_is(
                e.input_refs@[1],
                "version"@,
                p@,
                "application/vnd.pong.version"@,
            )
            &&& e.output_refs@.len() == 0
            &&& e.resource matches Some(v) && publication_resource(
                v,
                workspace.workspace_id@,
                before_state.workspace_revision,
                request.update_version_head,
            )
            &&& e.before_state matches Some(v) && before_state_encoded(*before_state, v)
            &&& e.after_state is None
            &&& e.reversibility@ == "REVERSIBLE"@
            &&& e.replayability@ == "REPLAYABLE"@
            &&& e.side_effect@ == "WORKSPACE"@
            &&& e.policy_decision is None
        },
{
    let mut input_refs: Vec<OperationRef> = Vec::new();
    input_refs.push(
        operation_ref("snapshot", snapshot.snapshot_id.as_str(), "application/vnd.pong.snapshot"),
    );
    match &request.parent_version_id {
        Some(parent) => {
            input_refs.push(
                operation_ref("version", parent.as_str(), "application/vnd.pong.version"),
            );
        },
        None => {},
    }
    let mut resource: Vec<(String, JsonValue)> = Vec::new();
    resource.push(
        named("expected_workspace_revision", JsonValue::integer(before_state.workspace_revision)),
    );
    resource.push(named("update_version_head", JsonValue::Bool(request.update_version_head)));
    resource.push(named("workspace_id", JsonValue::text(workspace.workspace_id.as_str())));
    Ok(
        OperationEnvelope {
            operation_id: request.operation_id.clone(),
            project_id: workspace.project_id.clone(),
            request_id: request.request_id.clone(),
            agent_id: request.lease.agent_id.clone(),
            session_id: text_or_default(&request.session_id, "agent-control"),
            workspace_id: Some(workspace.workspace_id.clone()),
            environment_id: copy_opt(&workspace.environment_id),
            parent_operation_id: None,
            schema_version: text_of(OPERATION_SCHEMA_VERSION),
            started_at: request.created_at.clone(),
            tool: text_or_default(&request.tool, "agent-control"),
            action: text_of("version.create"),
            input_refs,
            output_refs: Vec::new(),
            resource: Some(JsonValue::Object(resource)),
            before_state: Some(before_state.to_value()),
            after_state: None,
            reversibility: text_of("REVERSIBLE"),
            replayability: text_of("REPLAYABLE"),
            side_effect: text_of("WORKSPACE"),
            policy_decision: None,
        },
    )
}

/// The before-state a publication operation recorded, checked: the
/// operation is a Version creation, it recorded a state, the state decodes,
/// and its revision is not negative.
pub fn publication_before_state(operation: &OperationRecord) -> (r: Result<
    PublicationBeforeState,
    PongError,
>)
    ensures
        r is Ok <==> {
            &&& operation.action@ == "version.create"@
            &&& operation.before_state matches Some(v) && before_state_decodes(v)
                && decoded_revision(v) >= 0
        },
        operation.action@ != "version.create"@ ==> (r matches Err(PongError::Integrity(m)) && m@
            == "Version publication operation has an invalid action"@),
        (operation.action@ == "version.create"@ && operation.before_state is None) ==> (r matches Err(
            PongError::Integrity(m),
        ) && m@ == "Version publication operation has no before state"@),
        operation.action@ == "version.create"@ ==> match operation.before_state {
            Some(v) => if !before_state_decodes(v) {
                r matches Err(PongError::Integrity(m)) && m@
                    == "Version publication before state is invalid"@
            } else if decoded_revision(v) < 0 {
                r matches Err(PongError::Integrity(m)) && m@
                    == "Version publication before state has an invalid revision"@
            } else {
                r is Ok
            },
            None => true,
        },
        r matches Ok(s) ==> (operation.before_state matches Some(v) && s.workspace_revision
            == decoded_revision(v) && opt_text(s.workspace_head) == json_opt_text(
            last_member(object_entries(v)->0, "workspace_head"@),
        ) && opt_text(s.version_head_id) == json_opt_text(
            last_member(object_entries(v)->0, "version_head_id"@),
        )),
{
    if !str_equal(operation.action.as_str(), "version.create") {
        return Err(integrity("Version publication operation has an invalid action"));
    }
    let value = match &operation.before_state {
        Some(v) => v,
        None => {
            return Err(integrity("Version publication operation has no before state"));
        },
    };
    let state = match before_state_from_json(value) {
        Some(state) => state,
        None => {
            return Err(integrity("Version publication before state is invalid"));
        },
    };
    if state.workspace_revision < 0 {
        return Err(integrity("Version publication before state has an invalid revision"));
    }
    Ok(state)
}

/// The Snapshot inputs among an operation's references.
pub open spec fn snapshot_inputs(refs: Seq<OperationRef>) -> Seq<OperationRef> {
    refs.filter(|r: OperationRef| r.kind@ == "snapshot"@)
}

/// The Snapshot a publication operation names: its one Snapshot input,
/// which must have a non-blank reference.
pub fn publication_snapshot_reference(operation: &OperationRecord) -> (r: Result<
    &str,
    PongError,
>)
    ensures
        r is Ok <==> snapshot_inputs(operation.input_refs@).len() == 1 && !is_blank(
            snapshot_inputs(operation.input_refs@)[0].reference@,
        ),
        r matches Ok(s) ==> s@ == snapshot_inputs(operation.input_refs@)[0].reference@,
        snapshot_inputs(operation.input_refs@).len() == 0 ==> (r matches Err(PongError::Integrity(m))
            && m@ == "Version publication operation has no Snapshot input"@),
        snapshot_inputs(operation.input_refs@).len() > 0 && r is Err ==> (r matches Err(
            PongError::Integrity(m),
        ) && m@ == "Version publication operation has invalid Snapshot inputs"@),
{
    let refs = &operation.input_refs;
    let mut found: Option<usize> = None;
    let mut count: usize = 0;
    let mut i: usize = 0;
    while i < refs.len()
        invariant
            i <= refs@.len(),
            count as int == snapshot_inputs(refs@.take(i as int)).len(),
            count <= i,
            count == 0 <==> found is None,
            found matches Some(k) ==> k < i && refs@[k as int] == snapshot_inputs(
                refs@.take(i as int),
            )[0],
        decreases refs@.len() - i,
    {
        proof {
            let t = refs@.take(i as int);
            assert(refs@.take(i + 1) =~= t.push(refs@[i as int]));
            t.lemma_filter_push(refs@[i as int], |r: OperationRef| r.kind@ == "snapshot"@);
        }
        if str_equal(refs[i].kind.as_str(), "snapshot") {
            proof {
                reveal_strlit("snapshot");
            }
            if found.is_none() {
                found = Some(i);
            }
            count = count + 1;
        } else {
            proof {
                reveal_strlit("snapshot");
            }
        }
        i = i + 1;
    }
    assert(refs@.take(refs@.len() as int) =~= refs@);
    match found {
        None => Err(integrity("Version publication operation has no Snapshot input")),
        Some(k) => {
            if count > 1 || str_is_blank(refs[k].reference.as_str()) {
                return Err(integrity("Version publication operation has invalid Snapshot inputs"));
            }
            Ok(refs[k].reference.as_str())
        },
    }
}

/// The workspace revision at which a publication's Snapshot was recorded:
/// the before-state revision when the workspace head already was that
/// Snapshot, else one past it.
pub fn publication_snapshot_revision(
    before_state: &PublicationBeforeState,
    snapshot: &SnapshotRecord,
) -> (r: Result<i64, PongError>)
    ensures
        opt_text(before_state.workspace_head) == Some(snapshot.root_digest@) ==> r == Ok::<
            i64,
            PongError,
        >(before_state.workspace_revision),
        opt_text(before_state.workspace_head) != Some(snapshot.root_digest@) ==> {
            &&& before_state.workspace_revision < i64::MAX ==> r == Ok::<i64, PongError>(
                (before_state.workspace_revision + 1) as i64,
            )
            &&& before_state.workspace_revision == i64::MAX ==> (r matches Err(
                PongError::ResourceExhausted(m),
            ) && m@ == "workspace revision overflow"@)
        },
{
    if opt_is(&before_state.workspace_head, snapshot.root_digest.as_str()) {
        Ok(before_state.workspace_revision)
    } else {
        match before_state.workspace_revision.checked_add(1) {
            Some(v) => Ok(v),
            None => Err(PongError::ResourceExhausted(text_of("workspace revision overflow"))),
        }
    }
}

/// A Snapshot belongs to the workspace's scope.
pub open spec fn snapshot_in_scope(workspace: WorkspaceRecord, snapshot: SnapshotRecord) -> bool {
    &&& snapshot.workspace_id@ == workspace.workspace_id@
    &&& snapshot.project_id@ == workspace.project_id@
    &&& opt_text(snapshot.environment_id) == opt_text(workspace.environment_id)
}

/// An already-created Version is the one this publication creates.
pub open spec fn version_matches(
    workspace: WorkspaceRecord,
    snapshot: SnapshotRecord,
    version: VersionRecord,
) -> bool {
    &&& version.workspace_id@ == workspace.workspace_id@
    &&& version.project_id@ == workspace.project_id@
    &&& version.snapshot_id@ == snapshot.snapshot_id@
    &&& opt_text(version.environment_id) == opt_text(workspace.environment_id)
}

/// A publication that already selected its Version as the head and
/// advanced the revision past the Snapshot's: a completed retry.
pub open spec fn publication_completed(
    workspace: WorkspaceRecord,
    snapshot_revision: i64,
    existing_version: Option<VersionRecord>,
    update_version_head: bool,
) -> bool {
    &&& existing_version matches Some(v)
    &&& update_version_head
    &&& opt_text(workspace.version_head_id) == Some(v.version_id@)
    &&& snapshot_revision < i64::MAX
    &&& workspace.revision == snapshot_revision + 1
}

/// A completed retry whose revision cannot be advanced.
pub open spec fn completion_overflows(
    workspace: WorkspaceRecord,
    snapshot_revision: i64,
    existing_version: Option<VersionRecord>,
    update_version_head: bool,
) -> bool {
    &&& existing_version matches Some(v)
    &&& update_version_head
    &&& opt_text(workspace.version_head_id) == Some(v.version_id@)
    &&& snapshot_revision == i64::MAX
}

/// The staged workspace is where the publication left it: the revision is
/// the Snapshot's and the Version head has not moved.
pub open spec fn publication_unmoved(
    workspace: WorkspaceRecord,
    before_state: PublicationBeforeState,
    snapshot_revision: i64,
) -> bool {
    &&& workspace.revision == snapshot_revision
    &&& opt_text(workspace.version_head_id) == opt_text(before_state.version_head_id)
}

/// Check the workspace row a publication continues from against its
/// Snapshot, its recorded before-state and any Version it already created.
pub fn validate_publication_stage(
    workspace: &WorkspaceRecord,
    snapshot: &SnapshotRecord,
    before_state: &PublicationBeforeState,
    snapshot_revision: i64,
    existing_version: &Option<VersionRecord>,
    update_version_head: bool,
) -> (r: Result<(), PongError>)
    ensures
        !snapshot_in_scope(*workspace, *snapshot) ==> (r matches Err(PongError::Integrity(m)) && m@
            == "Version publication Snapshot scope is inconsistent"@),
        (snapshot_in_scope(*workspace, *snapshot) && opt_text(workspace.head) != Some(
            snapshot.root_digest@,
        )) ==> (r matches Err(PongError::Conflict(m)) && m@
            == "workspace head changed during Version publication"@),
        (snapshot_in_scope(*workspace, *snapshot) && opt_text(workspace.head) == Some(
            snapshot.root_digest@,
        ) && (*existing_version matches Some(v) && !version_matches(*workspace, *snapshot, v))) ==> (
        r matches Err(PongError::Integrity(m)) && m@
            == "durable Version publication result is inconsistent"@),
        r is Ok <==> {
            &&& snapshot_in_scope(*workspace, *snapshot)
            &&& opt_text(workspace.head) == Some(snapshot.root_digest@)
            &&& (*existing_version matches Some(v) ==> version_matches(*workspace, *snapshot, v))
            &&& !completion_overflows(
                *workspace,
                snapshot_revision,
                *existing_version,
                update_version_head,
            )
            &&& (publication_completed(
                *workspace,
                snapshot_revision,
                *existing_version,
                update_version_head,
            ) || publication_unmoved(*workspace, *before_state, snapshot_revision))
        },
        (r is Err && snapshot_in_scope(*workspace, *snapshot) && opt_text(workspace.head) == Some(
            snapshot.root_digest@,
        ) && (*existing_version matches Some(v) ==> version_matches(*workspace, *snapshot, v)))
            ==> ((r matches Err(PongError::Conflict(m)) && m@
            == "workspace revision is stale during Version publication"@) || (r matches Err(
            PongError::ResourceExhausted(_),
        ))),
{
    if !str_equal(snapshot.workspace_id.as_str(), workspace.workspace_id.as_str()) || !str_equal(
        snapshot.project_id.as_str(),
        workspace.project_id.as_str(),
    ) || !opt_equal(&snapshot.environment_id, &workspace.environment_id) {
        return Err(integrity("Version publication Snapshot scope is inconsistent"));
    }
    if !opt_is(&workspace.head, snapshot.root_digest.as_str()) {
        return Err(conflict("workspace head changed during Version publication"));
    }
    if let Some(version) = existing_version {
        if !str_equal(version.workspace_id.as_str(), workspace.workspace_id.as_str())
            || !str_equal(version.project_id.as_str(), workspace.project_id.as_str())
            || !str_equal(version.snapshot_id.as_str(), snapshot.snapshot_id.as_str())
            || !opt_equal(&version.environment_id, &workspace.environment_id) {
            return Err(integrity("durable Version publication result is inconsistent"));
        }
        if update_version_head && opt_is(&workspace.version_head_id, version.version_id.as_str()) {
            let completed = match snapshot_revision.checked_add(1) {
                Some(v) => v,
                None => {
                    return Err(
                        PongError::ResourceExhausted(text_of("workspace revision overflow")),
                    );
                },
            };
            if workspace.revision == completed {
                return Ok(());
            }
        }
    }
    if workspace.revision != snapshot_revision || !opt_equal(
        &workspace.version_head_id,
        &before_state.version_head_id,
    ) {
        return Err(conflict("workspace revision is stale during Version publication"));
    }
    Ok(())
}

/// What completing a publication does to the Version head.
#[derive(Debug, Clone, Copy, PartialEq, Eq, Structural)]
pub enum VersionHeadStep {
    /// The workspace row stands as it is.
    Keep,
    /// Select the new Version as head at the Snapshot's revision.
    Select,
}

/// Decide the last step of a publication from the workspace row read after
/// the Version was created.
pub fn version_head_step(
    workspace: &WorkspaceRecord,
    version_id: &str,
    before_state: &PublicationBeforeState,
    snapshot_revision: i64,
    update_version_head: bool,
) -> (r: Result<VersionHeadStep, PongError>)
    ensures
        (update_version_head && opt_text(workspace.version_head_id) == Some(version_id@)) ==> {
            &&& snapshot_revision == i64::MAX ==> (r matches Err(PongError::ResourceExhausted(m))
                && m@ == "workspace revision overflow"@)
            &&& (snapshot_revision < i64::MAX && workspace.revision == snapshot_revision + 1) ==> r
                == Ok::<VersionHeadStep, PongError>(VersionHeadStep::Keep)
            &&& (snapshot_revision < i64::MAX && workspace.revision != snapshot_revision + 1) ==> (
            r matches Err(PongError::Conflict(m)) && m@ == "workspace revision is stale"@)
        },
        !(update_version_head && opt_text(workspace.version_head_id) == Some(version_id@)) ==> (
        if publication_unmoved(*workspace, *before_state, snapshot_revision) {
            r == Ok::<VersionHeadStep, PongError>(
                if update_version_head {
                    VersionHeadStep::Select
                } else {
                    VersionHeadStep::Keep
                },
            )
        } else {
            r matches Err(PongError::Conflict(m)) && m@ == "workspace revision is stale"@
        }),
        r matches Err(PongError::Conflict(m)) ==> m@ == "workspace revision is stale"@,
{
    if update_version_head && opt_is(&workspace.version_head_id, version_id) {
        let completed = match snapshot_revision.checked_add(1) {
            Some(v) => v,
            None => {
                return Err(PongError::ResourceExhausted(text_of("workspace revision overflow")));
            },
        };
        if workspace.revision != completed {
            return Err(conflict("workspace revision is stale"));
        }
        return Ok(VersionHeadStep::Keep);
    }
    if workspace.revision != snapshot_revision || !opt_equal(
        &workspace.version_head_id,
        &before_state.version_head_id,
    ) {
        return Err(conflict("workspace revision is stale"));
    }
    if update_version_head {
        Ok(VersionHeadStep::Select)
    } else {
        Ok(VersionHeadStep::Keep)
    }
}


/// The Version row a publication creates: the workspace's scope and
/// environment, the published Snapshot, and the request's Operation,
/// time and parent.
#[derive(Debug, Clone, PartialEq, Eq)]
pub struct VersionPublication {
    pub workspace_id: String,
    pub project_id: String,
    pub snapshot_id: String,
    pub creation_operation_id: String,
    pub environment_id: Option<String>,
    pub created_at: String,
    pub parent_version_id: Option<String>,
}

/// The Version row to create for a publication whose stage checks passed.
pub fn version_publication_for(
    request: &PublishVersionRequest,
    workspace: &WorkspaceRecord,
    snapshot: &SnapshotRecord,
) -> (r: VersionPublication)
    ensures
        r.workspace_id == workspace.workspace_id,
        r.project_id == workspace.project_id,
        r.snapshot_id == snapshot.snapshot_id,
        r.creation_operation_id == request.operation_id,
        r.environment_id == workspace.environment_id,
        r.created_at == request.created_at,
        r.parent_version_id == request.parent_version_id,
{
    VersionPublication {
        workspace_id: workspace.workspace_id.clone(),
        project_id: workspace.project_id.clone(),
        snapshot_id: snapshot.snapshot_id.clone(),
        creation_operation_id: request.operation_id.clone(),
        environment_id: clone_opt(&workspace.environment_id),
        created_at: request.created_at.clone(),
        parent_version_id: clone_opt(&request.parent_version_id),
    }
}

/// The answer to a completed publication: the published Snapshot, the
/// created Version and the workspace as it stands after the head step.
pub fn publication_result(
    snapshot: SnapshotRecord,
    version: VersionRecord,
    workspace: WorkspaceRecord,
) -> (r: PublishVersionResult)
    ensures
        r.snapshot.snapshot_id == snapshot.snapshot_id,
        r.snapshot.root_digest == snapshot.root_digest,
        r.snapshot.workspace_id == snapshot.workspace_id,
        r.snapshot.project_id == snapshot.project_id,
        r.snapshot.environment_id == snapshot.environment_id,
        r.snapshot.file_count == snapshot.file_count,
        r.snapshot.total_bytes == snapshot.total_bytes,
        r.snapshot.created_at == snapshot.created_at,
        r.version == version,
        r.workspace.workspace_id == workspace.workspace_id,
        r.workspace.project_id == workspace.project_id,
        r.workspace.driver == workspace.driver,
        r.workspace.locator == workspace.locator,
        r.workspace.branch_ref == workspace.branch_ref,
        r.workspace.head == workspace.head,
        r.workspace.version_head_id == workspace.version_head_id,
        r.workspace.environment_id == workspace.environment_id,
        r.workspace.status == workspace.status,
        r.workspace.revision == workspace.revision,
        r.workspace.created_at == workspace.created_at,
        r.workspace.updated_at == workspace.updated_at,
{
    PublishVersionResult {
        snapshot: SnapshotView::from_record(snapshot),
        version,
        workspace: WorkspaceView::from_record(workspace),
    }
}

} // verus!
