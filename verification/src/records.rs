//! Durable records as the control and protocol rules read them.
//!
//! These are the rows the metadata store hands back for Agents, Tasks,
//! Executions, Workspaces, leases, Snapshots, Versions, Checkpoints,
//! Handoffs, Resumes and Operations, held as plain values.
use crate::json::JsonValue;
use vstd::prelude::*;

verus! {

#[derive(Debug, Clone, PartialEq, Eq)]
pub struct AgentIdentity {
    pub agent_id: String,
    pub provider: String,
    pub display_name: Option<String>,
    pub created_at: String,
}

#[derive(Debug, Clone, PartialEq, Eq)]
pub struct TaskRecord {
    pub task_id: String,
    pub project_id: String,
    pub goal: String,
    pub context_ref: Option<String>,
    pub state: String,
    pub revision: i64,
    pub created_at: String,
    pub updated_at: String,
}

#[derive(Debug, Clone, PartialEq, Eq)]
pub struct ExecutionRecord {
    pub execution_id: String,
    pub task_id: String,
    pub agent_id: String,
    pub project_id: String,
    pub parent_execution_id: Option<String>,
    pub workspace_id: Option<String>,
    pub base_version_id: Option<String>,
    pub current_version_id: Option<String>,
    pub state: String,
    pub outcome: Option<String>,
    pub revision: i64,
    pub created_at: String,
    pub updated_at: String,
}

/// A durable workspace row, by its registered identity.
#[derive(Debug, Clone, PartialEq, Eq)]
pub struct WorkspaceRecord {
    pub workspace_id: String,
    pub project_id: String,
    pub driver: String,
    pub locator: String,
    pub branch_ref: Option<String>,
    pub head: Option<String>,
    /// Explicit logical Version selection, independent of `head`.
    pub version_head_id: Option<String>,
    pub environment_id: Option<String>,
    pub status: String,
    pub revision: i64,
    pub created_at: String,
    pub updated_at: String,
}

/// The stored write lease of a workspace.
#[derive(Debug, Clone, PartialEq, Eq)]
pub struct LeaseRecord {
    pub workspace_id: String,
    pub agent_id: Option<String>,
    pub epoch: i64,
    pub expires_at_ms: i64,
    pub acquired_at_ms: i64,
}

/// The complete lease authority a mutation presents.
#[derive(Debug, Clone, PartialEq, Eq)]
pub struct LeaseToken {
    pub workspace_id: String,
    pub agent_id: String,
    pub epoch: i64,
    pub expires_at_ms: i64,
}

/// Durable metadata of one immutable workspace tree publication.
#[derive(Debug, Clone, PartialEq, Eq)]
pub struct SnapshotRecord {
    pub snapshot_id: String,
    pub root_digest: String,
    pub workspace_id: String,
    pub project_id: String,
    pub environment_id: Option<String>,
    pub file_count: usize,
    pub total_bytes: u64,
    pub created_at: String,
}

/// An immutable logical Version pointing at a published Snapshot.
#[derive(Debug, Clone, PartialEq, Eq)]
pub struct VersionRecord {
    pub version_id: String,
    pub workspace_id: String,
    pub project_id: String,
    pub snapshot_id: String,
    pub creation_operation_id: String,
    pub environment_id: Option<String>,
    pub created_at: String,
    pub parent_version_id: Option<String>,
}

#[derive(Debug, Clone, PartialEq, Eq)]
pub struct CheckpointRecord {
    pub checkpoint_id: String,
    pub task_id: String,
    pub execution_id: String,
    pub workspace_id: String,
    pub version_id: String,
    pub operation_id: Option<String>,
    pub reason: String,
    pub actor_agent_id: String,
    pub request_id: String,
    pub created_at: String,
}

#[derive(Debug, Clone, PartialEq, Eq)]
pub struct HandoffRecord {
    pub handoff_id: String,
    pub task_id: String,
    pub from_execution_id: String,
    pub to_execution_id: String,
    pub source_version_id: Option<String>,
    pub checkpoint_id: Option<String>,
    pub reason: String,
    pub actor_agent_id: String,
    pub request_id: String,
    pub status: String,
    pub created_at: String,
    pub updated_at: String,
}

#[derive(Debug, Clone, PartialEq, Eq)]
pub struct ResumeRecord {
    pub execution_id: String,
    pub task_id: String,
    pub agent_id: String,
    pub source_version_id: String,
    pub checkpoint_id: Option<String>,
    pub request_id: String,
    pub created_at: String,
}

/// A typed reference carried by an operation envelope.
#[derive(Debug, Clone, PartialEq, Eq)]
pub struct OperationRef {
    pub kind: String,
    pub reference: String,
    pub media_type: Option<String>,
}

/// A durable operation row: its identity, lifecycle and recording state,
/// the inputs it names and the state it recorded before its effect.
#[derive(Debug)]
pub struct OperationRecord {
    pub operation_id: String,
    pub project_id: String,
    pub request_id: String,
    pub agent_id: String,
    pub workspace_id: Option<String>,
    pub action: String,
    pub input_refs: Vec<OperationRef>,
    pub before_state: Option<JsonValue>,
    /// The stable code of the recorded error, when the operation failed.
    pub error_code: Option<String>,
    pub lifecycle_status: String,
    pub recording_status: String,
    pub started_at: String,
    pub finished_at: Option<String>,
}


/// The schema version operation envelopes are recorded under.
pub const OPERATION_SCHEMA_VERSION: &'static str = "0.1";

/// What an operation declares when it starts: its identities, scope,
/// inputs and recorded state, and how it may be undone or replayed.
#[derive(Debug)]
pub struct OperationEnvelope {
    pub operation_id: String,
    pub project_id: String,
    pub request_id: String,
    pub agent_id: String,
    pub session_id: String,
    pub workspace_id: Option<String>,
    pub environment_id: Option<String>,
    pub parent_operation_id: Option<String>,
    pub schema_version: String,
    pub started_at: String,
    pub tool: String,
    pub action: String,
    pub input_refs: Vec<OperationRef>,
    pub output_refs: Vec<OperationRef>,
    pub resource: Option<JsonValue>,
    pub before_state: Option<JsonValue>,
    pub after_state: Option<JsonValue>,
    pub reversibility: String,
    pub replayability: String,
    pub side_effect: String,
    pub policy_decision: Option<JsonValue>,
}


/// The error an operation finished with.
#[derive(Debug)]
pub struct OperationError {
    pub code: String,
    pub message: String,
    pub retryable: bool,
    pub details: Option<JsonValue>,
    pub safe_to_expose: bool,
}

} // verus!
