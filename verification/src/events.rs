//! The facts a run's log records, as the engine reads them back: one
//! stored event per fact, numbered by its position in the log.

use vstd::prelude::*;

use crate::ledger::{Failure, GateResolution, TokenUsage};
use crate::workflow::{ArtifactKind, FindingSeverity};

verus! {

/// When a task's criteria were checked: before its session, or after.
#[derive(Debug, Clone, Copy, PartialEq, Eq)]
pub enum Phase {
    Pre,
    Post,
}

/// Where a task stands in its node's tasks document.
#[derive(Debug, Clone, Copy, PartialEq, Eq)]
pub enum TaskStatus {
    Pending,
    Running,
    Done,
    Blocked,
}

/// How a run ended.
#[derive(Debug, Clone, Copy, PartialEq, Eq)]
pub enum TerminalState {
    Completed,
    Failed,
    Cancelled,
    Promoted,
}

/// One criterion command and the exit code it returned; `reused` when
/// the result was taken from an earlier identical run of the command
/// rather than run again.
#[derive(Debug, Clone, PartialEq, Eq)]
pub struct CriterionResult {
    pub cmd: String,
    pub exit_code: i32,
    pub reused: bool,
}

/// Something found wrong in the work, posted on the log.
#[derive(Debug, Clone, PartialEq, Eq)]
pub struct Finding {
    pub id: String,
    pub severity: FindingSeverity,
    pub title: String,
    /// Where: a path, or the pull request as a whole.
    pub location: String,
    pub detail: String,
}

/// One problem a document was found to have: the kind of document whose
/// rules were asked (none for a problem with the file itself, which has
/// no content to have a kind) and the problem's stable code.
#[derive(Debug, Clone, PartialEq, Eq)]
pub struct DocumentProblem {
    pub kind: Option<ArtifactKind>,
    pub code: String,
}

/// What one event states, for every kind this binary knows.
#[derive(Debug, Clone, PartialEq, Eq)]
pub enum EventPayload {
    /// The run parked; a later invocation wakes it.
    RunPaused,
    /// An invocation woke a parked run.
    RunResumed,
    /// The run closed for good, with what it spent in all.
    RunFinished { terminal_state: TerminalState, tokens: TokenUsage },
    NodeStarted,
    NodeFinished { outcome: String, tokens: TokenUsage },
    /// The node failed; `retryable` says whether a retry or a declared
    /// `on_failure` route may still act on it, and `problems` are those of
    /// the documents it failed on, empty for a failure that is not about
    /// documents.
    NodeFailed { failure: Failure, retryable: bool, tokens: TokenUsage, problems: Vec<DocumentProblem> },
    /// The failed node was sent to `to`, its corrective node.
    NodeRerouted { to: String },
    /// The runner a node's session resolved to.
    RunnerResolved { runner: String, adapter: String, model: String },
    CriteriaChecked { task_id: String, phase: Phase, results: Vec<CriterionResult> },
    /// The paths a task's work touched, and those outside its scope.
    ScopeChecked { diff: Vec<String>, violations: Vec<String> },
    /// An escalation was put to a person (or published to a forge, under
    /// its handle).
    GateWaiting { external_ref: Option<String> },
    GateResolved { resolution: GateResolution },
    /// A node's session asked questions; its attempt's tokens close here.
    QuestionsAsked { tokens_used: TokenUsage },
    QuestionsAnswered,
    /// A tasks document registered `task`, with the commands that judge it
    /// and the paths it may touch.
    TaskRegistered { task: String, criteria: Vec<String>, scope: Vec<String> },
    /// A task moved to `status`, because of the event at `caused_by`; a
    /// task that became `Done` by landing names the commit the run's tree
    /// stands at with its work in it.
    TaskStatusChanged { task: String, status: TaskStatus, caused_by: u64, commit: Option<String> },
    /// The run's first baseline capture: the suite's command and the hash
    /// of what it printed.
    BaselineCaptured { command: String, hash: String },
    /// A node produced a declared artifact at `path`.
    ArtifactRecorded { path: String },
    FindingPosted { finding: Finding },
    /// A person widened a task's scope by these paths.
    ScopeExpansionGranted { task: String, paths: Vec<String> },
    /// A session checked one of its documents before its close: clean
    /// (`None`), or with the codes of the problems it then corrected.
    ArtifactChecked { kind: Option<ArtifactKind>, problems: Option<Vec<String>> },
    /// A kind that records what happened around a node (a hook ran, a
    /// context was assembled) and moves no state.
    Audit { kind: String },
}

/// An event's body: a kind this binary knows, or one it does not, kept by
/// name.
#[derive(Debug, Clone, PartialEq, Eq)]
pub enum EventBody {
    Known(EventPayload),
    Unknown { kind: String },
}

/// One fact of a run's log, at its position `seq`, about `node_id` when it
/// concerns a node.
#[derive(Debug, Clone, PartialEq, Eq)]
pub struct StoredEvent {
    pub seq: u64,
    pub node_id: Option<String>,
    pub body: EventBody,
}

/// The name each known kind is logged under.
pub open spec fn kind_name_spec(payload: EventPayload) -> Seq<char> {
    match payload {
        EventPayload::RunPaused => "run_paused"@,
        EventPayload::RunResumed => "run_resumed"@,
        EventPayload::RunFinished { .. } => "run_finished"@,
        EventPayload::NodeStarted => "node_started"@,
        EventPayload::NodeFinished { .. } => "node_finished"@,
        EventPayload::NodeFailed { .. } => "node_failed"@,
        EventPayload::NodeRerouted { .. } => "node_rerouted"@,
        EventPayload::RunnerResolved { .. } => "runner_resolved"@,
        EventPayload::CriteriaChecked { .. } => "criteria_checked"@,
        EventPayload::ScopeChecked { .. } => "scope_checked"@,
        EventPayload::GateWaiting { .. } => "gate_waiting"@,
        EventPayload::GateResolved { .. } => "gate_resolved"@,
        EventPayload::QuestionsAsked { .. } => "questions_asked"@,
        EventPayload::QuestionsAnswered => "questions_answered"@,
        EventPayload::TaskRegistered { .. } => "task_registered"@,
        EventPayload::TaskStatusChanged { .. } => "task_status_changed"@,
        EventPayload::BaselineCaptured { .. } => "baseline_captured"@,
        EventPayload::ArtifactRecorded { .. } => "artifact_recorded"@,
        EventPayload::FindingPosted { .. } => "finding_posted"@,
        EventPayload::ScopeExpansionGranted { .. } => "scope_expansion_granted"@,
        EventPayload::ArtifactChecked { .. } => "artifact_checked"@,
        EventPayload::Audit { kind } => kind@,
    }
}

impl EventPayload {
    /// The name this kind is logged under.
    pub fn kind_name(&self) -> (name: String)
        ensures
            name@ == kind_name_spec(*self),
    {
        let name: &str = match self {
            EventPayload::RunPaused => "run_paused",
            EventPayload::RunResumed => "run_resumed",
            EventPayload::RunFinished { .. } => "run_finished",
            EventPayload::NodeStarted => "node_started",
            EventPayload::NodeFinished { .. } => "node_finished",
            EventPayload::NodeFailed { .. } => "node_failed",
            EventPayload::NodeRerouted { .. } => "node_rerouted",
            EventPayload::RunnerResolved { .. } => "runner_resolved",
            EventPayload::CriteriaChecked { .. } => "criteria_checked",
            EventPayload::ScopeChecked { .. } => "scope_checked",
            EventPayload::GateWaiting { .. } => "gate_waiting",
            EventPayload::GateResolved { .. } => "gate_resolved",
            EventPayload::QuestionsAsked { .. } => "questions_asked",
            EventPayload::QuestionsAnswered => "questions_answered",
            EventPayload::TaskRegistered { .. } => "task_registered",
            EventPayload::TaskStatusChanged { .. } => "task_status_changed",
            EventPayload::BaselineCaptured { .. } => "baseline_captured",
            EventPayload::ArtifactRecorded { .. } => "artifact_recorded",
            EventPayload::FindingPosted { .. } => "finding_posted",
            EventPayload::ScopeExpansionGranted { .. } => "scope_expansion_granted",
            EventPayload::ArtifactChecked { .. } => "artifact_checked",
            EventPayload::Audit { kind } => return kind.clone(),
        };
        name.to_string()
    }
}

/// The name an event is logged under, known or not.
pub open spec fn body_kind_spec(body: EventBody) -> Seq<char> {
    match body {
        EventBody::Known(payload) => kind_name_spec(payload),
        EventBody::Unknown { kind } => kind@,
    }
}

impl EventBody {
    /// The name this event is logged under.
    pub fn kind_name(&self) -> (name: String)
        ensures
            name@ == body_kind_spec(*self),
    {
        match self {
            EventBody::Known(payload) => payload.kind_name(),
            EventBody::Unknown { kind } => kind.clone(),
        }
    }
}

impl Finding {
    /// The same finding, owned.
    pub fn duplicate(&self) -> (copy: Finding)
        ensures
            copy == *self,
    {
        Finding {
            id: self.id.clone(),
            severity: self.severity,
            title: self.title.clone(),
            location: self.location.clone(),
            detail: self.detail.clone(),
        }
    }
}

} // verus!
