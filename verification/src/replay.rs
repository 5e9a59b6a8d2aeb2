//! State derivation by replay: a run's whole state read back off its
//! event log.
//!
//! `derive` is a pure function over the log. It folds node lifecycle,
//! waits on gates and questions, tasks and the run's own pauses. A log
//! that stops making sense — a terminal for a node that never started, a
//! status for a task never registered — marks the result `broken` with a
//! diagnostic naming the exact event; replay stops there and the state
//! accumulated up to that point is kept. An event under a kind this
//! binary does not know is counted and named, never a reason to stop.

use vstd::prelude::*;
use vstd::string::StringExecFns;

use crate::events::{kind_name_spec, EventBody, EventPayload, Finding, StoredEvent, TaskStatus, TerminalState};
use crate::ledger::{
    answered_at_of, current_gate, current_node, dup_state, find_keyed, gate_key, lemma_find_keyed, lemma_put_keyed,
    lookup_keyed, node_key, put_keyed, record_of, saturating, state_in, token_sum, GateLedger, GateRecord,
    Failure, GateResolution, NodeLedger, NodeRecord, NodeState, Reroute, TokenUsage,
};
use crate::text::{decimal, decimal_spec, same_text, text_lt};

verus! {

/// What the log says about the run as a whole.
#[derive(Debug, Clone, Copy, PartialEq, Eq, Default)]
pub struct RunLedger {
    /// When the run last parked.
    pub paused_at: Option<u64>,
    /// Whether an invocation resumed it.
    pub resumed: bool,
    /// How it ended, once it did.
    pub terminal: Option<TerminalState>,
}

impl RunLedger {
    /// Whether an invocation already woke the run: it paused or resumed.
    pub fn woken(&self) -> (woken: bool)
        ensures
            woken == (self.paused_at is Some || self.resumed),
    {
        self.paused_at.is_some() || self.resumed
    }
}

/// What the log says about one task.
#[derive(Debug, Clone, PartialEq, Eq)]
pub struct TaskRecord {
    pub task: String,
    /// The node whose tasks document registered it.
    pub node: Option<String>,
    pub status: TaskStatus,
    /// How many times it was dispatched `Running`.
    pub attempts: u32,
}

/// Every registered task's record, one per task.
#[derive(Debug, Clone, PartialEq, Eq, Default)]
pub struct TaskLedger {
    pub records: Vec<TaskRecord>,
}

/// Task records are keyed by their task.
pub open spec fn task_key() -> spec_fn(TaskRecord) -> Seq<char> {
    |r: TaskRecord| r.task@
}

/// The status the log derives for `task`.
pub open spec fn task_status_of(tasks: Seq<TaskRecord>, task: Seq<char>) -> Option<TaskStatus> {
    match lookup_keyed(tasks, task_key(), task) {
        Some(record) => Some(record.status),
        None => None,
    }
}

impl TaskRecord {
    /// The same record, owned.
    pub fn duplicate(&self) -> (copy: TaskRecord)
        ensures
            copy == *self,
    {
        TaskRecord { task: self.task.clone(), node: crate::ledger::dup_text(&self.node), status: self.status, attempts: self.attempts }
    }
}

impl TaskLedger {
    /// The position of `task`'s record.
    pub fn position(&self, task: &String) -> (found: Option<usize>)
        ensures
            found matches Some(i) ==> i < self.records@.len() && find_keyed(self.records@, task_key(), task@, 0) == Some(i as int),
            found is None ==> find_keyed(self.records@, task_key(), task@, 0) is None,
    {
        let mut i: usize = 0;
        while i < self.records.len()
            invariant
                i <= self.records@.len(),
                find_keyed(self.records@, task_key(), task@, 0) == find_keyed(self.records@, task_key(), task@, i as int),
            decreases self.records@.len() - i,
        {
            if same_text(&self.records[i].task, task) {
                return Some(i);
            }
            i = i + 1;
        }
        None
    }

    /// The record of `task`, if it was registered.
    pub fn get(&self, task: &String) -> (record: Option<&TaskRecord>)
        ensures
            record matches Some(r) ==> lookup_keyed(self.records@, task_key(), task@) == Some(*r),
            record is None ==> lookup_keyed(self.records@, task_key(), task@) is None,
    {
        match self.position(task) {
            Some(i) => Some(&self.records[i]),
            None => None,
        }
    }

    /// What `task` is now, if it was registered.
    pub fn status(&self, task: &String) -> (status: Option<TaskStatus>)
        ensures
            status == task_status_of(self.records@, task@),
    {
        match self.get(task) {
            Some(record) => Some(record.status),
            None => None,
        }
    }

    fn put(&mut self, record: TaskRecord)
        ensures
            final(self).records@ == put_keyed(old(self).records@, task_key(), record),
    {
        match self.position(&record.task) {
            Some(i) => { self.records.set(i, record); },
            None => { self.records.push(record); },
        }
    }
}

/// Why replay had to stop: the point where the log stops making sense.
#[derive(Debug, Clone, PartialEq, Eq)]
pub enum ReplayError {
    MissingNodeId { seq: u64, kind: String },
    FinishedWithoutStart { seq: u64, node: String },
    FailedWithoutStart { seq: u64, node: String },
    AskedWithoutStart { seq: u64, node: String },
    AnsweredWithoutAsk { seq: u64, node: String },
    StatusWithoutTask { seq: u64, task: String },
}

/// A replay error, read as plain values.
pub enum ReplayErrorV {
    MissingNodeId { seq: u64, kind: Seq<char> },
    FinishedWithoutStart { seq: u64, node: Seq<char> },
    FailedWithoutStart { seq: u64, node: Seq<char> },
    AskedWithoutStart { seq: u64, node: Seq<char> },
    AnsweredWithoutAsk { seq: u64, node: Seq<char> },
    StatusWithoutTask { seq: u64, task: Seq<char> },
}

impl View for ReplayError {
    type V = ReplayErrorV;

    open spec fn view(&self) -> ReplayErrorV {
        match self {
            ReplayError::MissingNodeId { seq, kind } => ReplayErrorV::MissingNodeId { seq: *seq, kind: kind@ },
            ReplayError::FinishedWithoutStart { seq, node } => ReplayErrorV::FinishedWithoutStart { seq: *seq, node: node@ },
            ReplayError::FailedWithoutStart { seq, node } => ReplayErrorV::FailedWithoutStart { seq: *seq, node: node@ },
            ReplayError::AskedWithoutStart { seq, node } => ReplayErrorV::AskedWithoutStart { seq: *seq, node: node@ },
            ReplayError::AnsweredWithoutAsk { seq, node } => ReplayErrorV::AnsweredWithoutAsk { seq: *seq, node: node@ },
            ReplayError::StatusWithoutTask { seq, task } => ReplayErrorV::StatusWithoutTask { seq: *seq, task: task@ },
        }
    }
}

/// `seq N: node `X` got <kind> without <what was owed before it>`.
pub open spec fn node_sentence(seq: u64, node: Seq<char>, got: Seq<char>, owed: Seq<char>) -> Seq<char> {
    "seq "@ + decimal_spec(seq as nat) + ": node `"@ + node + "` got "@ + got + " without a matching "@ + owed
}

/// The diagnostic a broken log is reported with.
pub open spec fn error_message(error: ReplayErrorV) -> Seq<char> {
    match error {
        ReplayErrorV::MissingNodeId { seq, kind } => "seq "@ + decimal_spec(seq as nat) + ": `"@ + kind + "` is missing node_id"@,
        ReplayErrorV::FinishedWithoutStart { seq, node } => node_sentence(seq, node, "node_finished"@, "node_started"@),
        ReplayErrorV::FailedWithoutStart { seq, node } => node_sentence(seq, node, "node_failed"@, "node_started"@),
        ReplayErrorV::AskedWithoutStart { seq, node } => node_sentence(seq, node, "questions_asked"@, "node_started"@),
        ReplayErrorV::AnsweredWithoutAsk { seq, node } => node_sentence(seq, node, "questions_answered"@, "questions_asked"@),
        ReplayErrorV::StatusWithoutTask { seq, task } => "seq "@ + decimal_spec(seq as nat) + ": task `"@ + task
            + "` got task_status_changed without a prior task_registered"@,
    }
}

fn node_message(seq: u64, node: &String, got: &str, owed: &str) -> (text: String)
    ensures
        text@ == node_sentence(seq, node@, got@, owed@),
{
    let mut text = String::from_str("seq ");
    let n = decimal(seq);
    text.append(n.as_str());
    text.append(": node `");
    text.append(node.as_str());
    text.append("` got ");
    text.append(got);
    text.append(" without a matching ");
    text.append(owed);
    text
}

impl ReplayError {
    /// The diagnostic this error reports a broken log with.
    pub fn message(&self) -> (text: String)
        ensures
            text@ == error_message(self@),
    {
        match self {
            ReplayError::MissingNodeId { seq, kind } => {
                let mut text = String::from_str("seq ");
                let n = decimal(*seq);
                text.append(n.as_str());
                text.append(": `");
                text.append(kind.as_str());
                text.append("` is missing node_id");
                text
            },
            ReplayError::FinishedWithoutStart { seq, node } => node_message(*seq, node, "node_finished", "node_started"),
            ReplayError::FailedWithoutStart { seq, node } => node_message(*seq, node, "node_failed", "node_started"),
            ReplayError::AskedWithoutStart { seq, node } => node_message(*seq, node, "questions_asked", "node_started"),
            ReplayError::AnsweredWithoutAsk { seq, node } => node_message(*seq, node, "questions_answered", "questions_asked"),
            ReplayError::StatusWithoutTask { seq, task } => {
                let mut text = String::from_str("seq ");
                let n = decimal(*seq);
                text.append(n.as_str());
                text.append(": task `");
                text.append(task.as_str());
                text.append("` got task_status_changed without a prior task_registered");
                text
            },
        }
    }
}

/// Every fold of a run's log the engine reads, in one value.
#[derive(Debug, Clone, PartialEq, Eq, Default)]
pub struct RunState {
    pub run: RunLedger,
    pub nodes: NodeLedger,
    pub gates: GateLedger,
    pub tasks: TaskLedger,
    /// Every event under a kind this binary does not know, by position and
    /// kind name, in log order.
    pub unknown_kinds: Vec<(u64, String)>,
    /// `Some(diagnostic)` once the log has proven insufficient to derive
    /// further state.
    pub broken: Option<String>,
    /// What a node was before the fact that opened its wait, so the fact
    /// that closes it restores exactly that. An entry of `None` is the
    /// same as no entry.
    pub pre_gate: Vec<(String, Option<NodeState>)>,
    /// Every artifact a node recorded, by node and path, in log order.
    pub artifacts: Vec<(String, String)>,
    /// Every finding posted, with the node that posted it, in log order.
    pub findings: Vec<(Option<String>, Finding)>,
}

/// A run's state, read as plain values.
pub struct RunStateV {
    pub run: RunLedger,
    pub nodes: Seq<NodeRecord>,
    pub gates: Seq<GateRecord>,
    pub tasks: Seq<TaskRecord>,
    pub unknown_kinds: Seq<(u64, String)>,
    pub broken: Option<Seq<char>>,
    pub pre_gate: Seq<(String, Option<NodeState>)>,
    pub artifacts: Seq<(String, String)>,
    pub findings: Seq<(Option<String>, Finding)>,
}

impl View for RunState {
    type V = RunStateV;

    open spec fn view(&self) -> RunStateV {
        RunStateV {
            run: self.run,
            nodes: self.nodes.records@,
            gates: self.gates.records@,
            tasks: self.tasks.records@,
            unknown_kinds: self.unknown_kinds@,
            broken: match self.broken {
                Some(b) => Some(b@),
                None => None,
            },
            pre_gate: self.pre_gate@,
            artifacts: self.artifacts@,
            findings: self.findings@,
        }
    }
}

/// The state of a log with nothing on it.
pub open spec fn empty_state() -> RunStateV {
    RunStateV {
        run: RunLedger { paused_at: None, resumed: false, terminal: None },
        nodes: Seq::empty(),
        gates: Seq::empty(),
        tasks: Seq::empty(),
        unknown_kinds: Seq::empty(),
        broken: None,
        pre_gate: Seq::empty(),
        artifacts: Seq::empty(),
        findings: Seq::empty(),
    }
}

/// Entries of `pre_gate` are keyed by their node.
pub open spec fn pre_key() -> spec_fn((String, Option<NodeState>)) -> Seq<char> {
    |entry: (String, Option<NodeState>)| entry.0@
}

/// What `node` was before the wait that holds it now.
pub open spec fn pre_lookup(pre_gate: Seq<(String, Option<NodeState>)>, node: Seq<char>) -> Option<NodeState> {
    match lookup_keyed(pre_gate, pre_key(), node) {
        Some(entry) => entry.1,
        None => None,
    }
}

/// `nodes` with `node` moved into `state`.
pub open spec fn put_state(nodes: Seq<NodeRecord>, node: String, state: Option<NodeState>) -> Seq<NodeRecord> {
    put_keyed(nodes, node_key(), NodeRecord { state, ..current_node(nodes, node) })
}

/// One more, saturating.
pub open spec fn bump(n: u32) -> u32 {
    if n == u32::MAX { n } else { (n + 1) as u32 }
}

/// What one lifecycle event does to its node's record.
pub open spec fn node_step(record: NodeRecord, payload: EventPayload, seq: u64) -> NodeRecord {
    match payload {
        EventPayload::NodeStarted => NodeRecord { state: Some(NodeState::Running), attempts: bump(record.attempts), ..record },
        EventPayload::NodeFinished { outcome, tokens } => NodeRecord {
            state: Some(NodeState::Finished { outcome }),
            last_finished: Some(seq),
            last_terminal: Some(seq),
            tokens_closed: token_sum(record.tokens_closed, tokens),
            ..record
        },
        EventPayload::NodeFailed { failure, tokens, .. } => NodeRecord {
            state: Some(NodeState::Failed { failure }),
            last_failed: Some(seq),
            last_terminal: Some(seq),
            tokens_closed: token_sum(record.tokens_closed, tokens),
            ..record
        },
        EventPayload::NodeRerouted { to } => NodeRecord {
            reroutes: bump(record.reroutes),
            last_reroute: Some(Reroute { seq, to }),
            ..record
        },
        _ => record,
    }
}

/// What one wait event does to its node's gate record.
pub open spec fn gate_step(record: GateRecord, payload: EventPayload, seq: u64) -> GateRecord {
    match payload {
        EventPayload::GateWaiting { external_ref } => GateRecord {
            waiting: Some(seq),
            external_ref: if external_ref is Some { external_ref } else { record.external_ref },
            ..record
        },
        EventPayload::GateResolved { resolution } => GateRecord { resolved: Some((resolution, seq)), ..record },
        EventPayload::QuestionsAsked { .. } => GateRecord { asked_at: Some(seq), answered_at: None, ..record },
        EventPayload::QuestionsAnswered => GateRecord { answered_at: Some(seq), ..record },
        _ => record,
    }
}

/// What one run-level event does to the run's record.
pub open spec fn run_step(run: RunLedger, payload: EventPayload, seq: u64) -> RunLedger {
    match payload {
        EventPayload::RunPaused => RunLedger { paused_at: Some(seq), ..run },
        EventPayload::RunResumed => RunLedger { resumed: true, ..run },
        EventPayload::RunFinished { terminal_state, .. } => RunLedger { terminal: Some(terminal_state), ..run },
        _ => run,
    }
}

/// A wait event about `node`: a gate put to a person parks the node and
/// its resolution restores what it was; questions asked park a running
/// node (closing its attempt's tokens) and their answer reopens it.
pub open spec fn gate_apply(s: RunStateV, node: String, payload: EventPayload, seq: u64) -> Result<RunStateV, ReplayErrorV> {
    let state = state_in(s.nodes, node@);
    let gates = put_keyed(s.gates, gate_key(), gate_step(current_gate(s.gates, node), payload, seq));
    match payload {
        EventPayload::GateWaiting { external_ref } => Ok(RunStateV {
            nodes: put_state(s.nodes, node, Some(NodeState::Waiting { external_ref })),
            gates,
            pre_gate: put_keyed(s.pre_gate, pre_key(), (node, state)),
            ..s
        }),
        EventPayload::GateResolved { .. } => if state matches Some(NodeState::Waiting { .. }) {
            Ok(RunStateV {
                nodes: put_state(s.nodes, node, pre_lookup(s.pre_gate, node@)),
                gates,
                pre_gate: put_keyed(s.pre_gate, pre_key(), (node, None)),
                ..s
            })
        } else {
            Ok(RunStateV { gates, ..s })
        },
        EventPayload::QuestionsAsked { tokens_used } => if state matches Some(NodeState::Running) {
            let record = current_node(s.nodes, node);
            Ok(RunStateV {
                nodes: put_keyed(s.nodes, node_key(), NodeRecord {
                    state: Some(NodeState::Waiting { external_ref: None }),
                    tokens_closed: token_sum(record.tokens_closed, tokens_used),
                    ..record
                }),
                gates,
                pre_gate: put_keyed(s.pre_gate, pre_key(), (node, state)),
                ..s
            })
        } else {
            Err(ReplayErrorV::AskedWithoutStart { seq, node: node@ })
        },
        EventPayload::QuestionsAnswered => if state matches Some(NodeState::Waiting { .. }) {
            Ok(RunStateV {
                nodes: put_state(s.nodes, node, pre_lookup(s.pre_gate, node@)),
                gates,
                pre_gate: put_keyed(s.pre_gate, pre_key(), (node, None)),
                ..s
            })
        } else {
            Err(ReplayErrorV::AnsweredWithoutAsk { seq, node: node@ })
        },
        _ => Ok(s),
    }
}

/// Folds one event into every record its kind reaches, or names why the
/// log stops making sense there.
pub open spec fn apply_spec(s: RunStateV, event: StoredEvent) -> Result<RunStateV, ReplayErrorV> {
    let seq = event.seq;
    match event.body {
        EventBody::Unknown { kind } => Ok(RunStateV { unknown_kinds: s.unknown_kinds.push((seq, kind)), ..s }),
        EventBody::Known(payload) => match payload {
            EventPayload::RunPaused | EventPayload::RunResumed | EventPayload::RunFinished { .. } =>
                Ok(RunStateV { run: run_step(s.run, payload, seq), ..s }),
            EventPayload::NodeStarted | EventPayload::NodeFinished { .. } | EventPayload::NodeFailed { .. } =>
                match event.node_id {
                    None => Err(ReplayErrorV::MissingNodeId { seq, kind: kind_name_spec(payload) }),
                    Some(node) => {
                        let running = state_in(s.nodes, node@) matches Some(NodeState::Running);
                        if payload is NodeFinished && !running {
                            Err(ReplayErrorV::FinishedWithoutStart { seq, node: node@ })
                        } else if payload is NodeFailed && !running {
                            Err(ReplayErrorV::FailedWithoutStart { seq, node: node@ })
                        } else {
                            Ok(RunStateV {
                                nodes: put_keyed(s.nodes, node_key(), node_step(current_node(s.nodes, node), payload, seq)),
                                ..s
                            })
                        }
                    },
                },
            EventPayload::NodeRerouted { .. } => match event.node_id {
                None => Ok(s),
                Some(node) => Ok(RunStateV {
                    nodes: put_keyed(s.nodes, node_key(), node_step(current_node(s.nodes, node), payload, seq)),
                    ..s
                }),
            },
            EventPayload::GateWaiting { .. } | EventPayload::GateResolved { .. } | EventPayload::QuestionsAsked { .. }
            | EventPayload::QuestionsAnswered => match event.node_id {
                None => Ok(s),
                Some(node) => gate_apply(s, node, payload, seq),
            },
            EventPayload::ArtifactRecorded { path } => match event.node_id {
                None => Ok(s),
                Some(node) => Ok(RunStateV { artifacts: s.artifacts.push((node, path)), ..s }),
            },
            EventPayload::FindingPosted { finding } => Ok(RunStateV { findings: s.findings.push((event.node_id, finding)), ..s }),
            EventPayload::TaskRegistered { task, .. } => match lookup_keyed(s.tasks, task_key(), task@) {
                Some(_) => Ok(s),
                None => Ok(RunStateV {
                    tasks: s.tasks.push(TaskRecord { task, node: event.node_id, status: TaskStatus::Pending, attempts: 0 }),
                    ..s
                }),
            },
            EventPayload::TaskStatusChanged { task, status, .. } => match lookup_keyed(s.tasks, task_key(), task@) {
                None => Err(ReplayErrorV::StatusWithoutTask { seq, task: task@ }),
                Some(record) => Ok(RunStateV {
                    tasks: put_keyed(s.tasks, task_key(), TaskRecord {
                        status,
                        attempts: if status is Running { bump(record.attempts) } else { record.attempts },
                        ..record
                    }),
                    ..s
                }),
            },
            _ => Ok(s),
        },
    }
}

/// The state `events` derive from `s`, stopping at the first event the log
/// cannot explain.
pub open spec fn replay_from(s: RunStateV, events: Seq<StoredEvent>) -> RunStateV
    decreases events.len(),
{
    if events.len() == 0 {
        s
    } else {
        match apply_spec(s, events[0]) {
            Ok(next) => replay_from(next, events.drop_first()),
            Err(error) => RunStateV { broken: Some(error_message(error)), ..s },
        }
    }
}

/// The state a whole log derives.
pub open spec fn derive_spec(events: Seq<StoredEvent>) -> RunStateV {
    replay_from(empty_state(), events)
}

/// Whether `node`'s questions were answered and its close still owes it a
/// terminal: the latest round was answered after the node's last terminal
/// (or the node has none).
pub open spec fn answered_unfinished_spec(state: RunState, node: Seq<char>) -> bool {
    &&& record_of(state.nodes, node) is Some
    &&& match answered_at_of(state.gates, node) {
        Some(answered) => match record_of(state.nodes, node).unwrap().last_terminal {
            Some(terminal) => terminal < answered,
            None => true,
        },
        None => false,
    }
}

impl RunState {
    /// Whether `node`'s questions were answered and its close still owes
    /// it a terminal.
    pub fn answered_unfinished(&self, node: &String) -> (owed: bool)
        ensures
            owed == answered_unfinished_spec(*self, node@),
    {
        match (self.gates.answered_at(node), self.nodes.get(node)) {
            (Some(answered), Some(record)) => match record.last_terminal {
                Some(terminal) => terminal < answered,
                None => true,
            },
            _ => false,
        }
    }
}

fn bump_count(n: u32) -> (m: u32)
    ensures
        m == bump(n),
{
    if n == u32::MAX { n } else { n + 1 }
}

fn node_step_exec(record: NodeRecord, payload: &EventPayload, seq: u64) -> (next: NodeRecord)
    ensures
        next == node_step(record, *payload, seq),
{
    let mut next = record;
    match payload {
        EventPayload::NodeStarted => {
            next.state = Some(NodeState::Running);
            next.attempts = bump_count(next.attempts);
        },
        EventPayload::NodeFinished { outcome, tokens } => {
            next.state = Some(NodeState::Finished { outcome: outcome.clone() });
            next.last_finished = Some(seq);
            next.last_terminal = Some(seq);
            next.tokens_closed = next.tokens_closed.plus(*tokens);
        },
        EventPayload::NodeFailed { failure, tokens, .. } => {
            next.state = Some(NodeState::Failed { failure: failure.duplicate() });
            next.last_failed = Some(seq);
            next.last_terminal = Some(seq);
            next.tokens_closed = next.tokens_closed.plus(*tokens);
        },
        EventPayload::NodeRerouted { to } => {
            next.reroutes = bump_count(next.reroutes);
            next.last_reroute = Some(Reroute { seq, to: to.clone() });
        },
        _ => {},
    }
    next
}

fn gate_step_exec(record: GateRecord, payload: &EventPayload, seq: u64) -> (next: GateRecord)
    ensures
        next == gate_step(record, *payload, seq),
{
    let mut next = record;
    match payload {
        EventPayload::GateWaiting { external_ref } => {
            next.waiting = Some(seq);
            if external_ref.is_some() {
                next.external_ref = crate::ledger::dup_text(external_ref);
            }
        },
        EventPayload::GateResolved { resolution } => {
            next.resolved = Some((resolution.duplicate(), seq));
        },
        EventPayload::QuestionsAsked { .. } => {
            next.asked_at = Some(seq);
            next.answered_at = None;
        },
        EventPayload::QuestionsAnswered => {
            next.answered_at = Some(seq);
        },
        _ => {},
    }
    next
}

impl RunState {
    /// The state of a log with nothing on it.
    pub fn new() -> (state: RunState)
        ensures
            state@ == empty_state(),
    {
        RunState {
            run: RunLedger { paused_at: None, resumed: false, terminal: None },
            nodes: NodeLedger { records: Vec::new() },
            gates: GateLedger { records: Vec::new() },
            tasks: TaskLedger { records: Vec::new() },
            unknown_kinds: Vec::new(),
            broken: None,
            pre_gate: Vec::new(),
            artifacts: Vec::new(),
            findings: Vec::new(),
        }
    }

    /// What `node` is now, owned.
    fn state_now(&self, node: &String) -> (state: Option<NodeState>)
        ensures
            state == state_in(self.nodes.records@, node@),
    {
        proof { crate::ledger::lemma_find_record_keyed(self.nodes.records@, node@, 0); }
        match self.nodes.state(node) {
            Some(s) => Some(s.duplicate()),
            None => None,
        }
    }

    fn pre_position(&self, node: &String) -> (found: Option<usize>)
        ensures
            found matches Some(i) ==> i < self.pre_gate@.len() && find_keyed(self.pre_gate@, pre_key(), node@, 0) == Some(i as int),
            found is None ==> find_keyed(self.pre_gate@, pre_key(), node@, 0) is None,
    {
        let mut i: usize = 0;
        while i < self.pre_gate.len()
            invariant
                i <= self.pre_gate@.len(),
                find_keyed(self.pre_gate@, pre_key(), node@, 0) == find_keyed(self.pre_gate@, pre_key(), node@, i as int),
            decreases self.pre_gate@.len() - i,
        {
            if same_text(&self.pre_gate[i].0, node) {
                return Some(i);
            }
            i = i + 1;
        }
        None
    }

    /// What `node` was before the wait that holds it now.
    fn prior(&self, node: &String) -> (prior: Option<NodeState>)
        ensures
            prior == pre_lookup(self.pre_gate@, node@),
    {
        match self.pre_position(node) {
            Some(i) => dup_state(&self.pre_gate[i].1),
            None => None,
        }
    }

    fn remember(&mut self, node: &String, state: Option<NodeState>)
        ensures
            final(self)@ == (RunStateV { pre_gate: put_keyed(old(self)@.pre_gate, pre_key(), (*node, state)), ..old(self)@ }),
    {
        let entry = (node.clone(), state);
        match self.pre_position(node) {
            Some(i) => { self.pre_gate.set(i, entry); },
            None => { self.pre_gate.push(entry); },
        }
    }

    fn set_state(&mut self, node: &String, state: Option<NodeState>)
        ensures
            final(self)@ == (RunStateV { nodes: put_state(old(self)@.nodes, *node, state), ..old(self)@ }),
    {
        let mut record = self.nodes.current(node);
        record.state = state;
        self.nodes.put(record);
    }

    fn apply_gate(&mut self, node: &String, payload: &EventPayload, seq: u64) -> (result: Result<(), ReplayError>)
        ensures
            match gate_apply(old(self)@, *node, *payload, seq) {
                Ok(next) => result is Ok && final(self)@ == next,
                Err(error) => result matches Err(e) && e@ == error && final(self)@ == old(self)@,
            },
    {
        let state = self.state_now(node);
        let running = matches!(state, Some(NodeState::Running));
        let waiting = matches!(state, Some(NodeState::Waiting { .. }));
        match payload {
            EventPayload::QuestionsAsked { .. } => {
                if !running {
                    return Err(ReplayError::AskedWithoutStart { seq, node: node.clone() });
                }
            },
            EventPayload::QuestionsAnswered => {
                if !waiting {
                    return Err(ReplayError::AnsweredWithoutAsk { seq, node: node.clone() });
                }
            },
            EventPayload::GateWaiting { .. } | EventPayload::GateResolved { .. } => {},
            _ => { return Ok(()); },
        }
        let gate = self.gates.current(node);
        let next_gate = gate_step_exec(gate, payload, seq);
        self.gates.put(next_gate);
        match payload {
            EventPayload::GateWaiting { external_ref } => {
                self.remember(node, state);
                self.set_state(node, Some(NodeState::Waiting { external_ref: crate::ledger::dup_text(external_ref) }));
            },
            EventPayload::GateResolved { .. } => {
                if waiting {
                    let prior = self.prior(node);
                    self.set_state(node, prior);
                    self.remember(node, None);
                }
            },
            EventPayload::QuestionsAsked { tokens_used } => {
                let mut record = self.nodes.current(node);
                record.state = Some(NodeState::Waiting { external_ref: None });
                record.tokens_closed = record.tokens_closed.plus(*tokens_used);
                self.nodes.put(record);
                self.remember(node, state);
            },
            _ => {
                let prior = self.prior(node);
                self.set_state(node, prior);
                self.remember(node, None);
            },
        }
        Ok(())
    }

    /// Folds one event into every record its kind reaches. On an event the
    /// log cannot explain, nothing changes and the error names it.
    pub fn apply(&mut self, event: &StoredEvent) -> (result: Result<(), ReplayError>)
        ensures
            match apply_spec(old(self)@, *event) {
                Ok(next) => result is Ok && final(self)@ == next,
                Err(error) => result matches Err(e) && e@ == error && final(self)@ == old(self)@,
            },
    {
        let seq = event.seq;
        let payload = match &event.body {
            EventBody::Unknown { kind } => {
                self.unknown_kinds.push((seq, kind.clone()));
                return Ok(());
            },
            EventBody::Known(payload) => payload,
        };
        match payload {
            EventPayload::RunPaused => {
                self.run.paused_at = Some(seq);
                Ok(())
            },
            EventPayload::RunResumed => {
                self.run.resumed = true;
                Ok(())
            },
            EventPayload::RunFinished { terminal_state, .. } => {
                self.run.terminal = Some(*terminal_state);
                Ok(())
            },
            EventPayload::NodeStarted | EventPayload::NodeFinished { .. } | EventPayload::NodeFailed { .. } => {
                match &event.node_id {
                    None => Err(ReplayError::MissingNodeId { seq, kind: payload.kind_name() }),
                    Some(node) => {
                        let running = matches!(self.state_now(node), Some(NodeState::Running));
                        if matches!(payload, EventPayload::NodeFinished { .. }) && !running {
                            return Err(ReplayError::FinishedWithoutStart { seq, node: node.clone() });
                        }
                        if matches!(payload, EventPayload::NodeFailed { .. }) && !running {
                            return Err(ReplayError::FailedWithoutStart { seq, node: node.clone() });
                        }
                        let record = self.nodes.current(node);
                        self.nodes.put(node_step_exec(record, payload, seq));
                        Ok(())
                    },
                }
            },
            EventPayload::NodeRerouted { .. } => {
                if let Some(node) = &event.node_id {
                    let record = self.nodes.current(node);
                    self.nodes.put(node_step_exec(record, payload, seq));
                }
                Ok(())
            },
            EventPayload::GateWaiting { .. } | EventPayload::GateResolved { .. } | EventPayload::QuestionsAsked { .. }
            | EventPayload::QuestionsAnswered => {
                match &event.node_id {
                    None => Ok(()),
                    Some(node) => self.apply_gate(node, payload, seq),
                }
            },
            EventPayload::ArtifactRecorded { path } => {
                if let Some(node) = &event.node_id {
                    self.artifacts.push((node.clone(), path.clone()));
                }
                Ok(())
            },
            EventPayload::FindingPosted { finding } => {
                self.findings.push((crate::ledger::dup_text(&event.node_id), finding.duplicate()));
                Ok(())
            },
            EventPayload::TaskRegistered { task, .. } => {
                if self.tasks.get(task).is_none() {
                    proof { lemma_find_keyed(self.tasks.records@, task_key(), task@, 0); }
                    self.tasks.records.push(TaskRecord {
                        task: task.clone(),
                        node: crate::ledger::dup_text(&event.node_id),
                        status: TaskStatus::Pending,
                        attempts: 0,
                    });
                }
                Ok(())
            },
            EventPayload::TaskStatusChanged { task, status, .. } => {
                let found = match self.tasks.get(task) {
                    Some(record) => record.duplicate(),
                    None => {
                        return Err(ReplayError::StatusWithoutTask { seq, task: task.clone() });
                    },
                };
                let mut record = found;
                record.status = *status;
                if matches!(status, TaskStatus::Running) {
                    record.attempts = bump_count(record.attempts);
                }
                self.tasks.put(record);
                Ok(())
            },
            _ => Ok(()),
        }
    }
}

/// Derives a run's state from its event log, in log order; replay stops at
/// the first event the log cannot explain, keeping what came before and
/// naming that event in `broken`. Same log, same state, always.
pub fn derive(events: &Vec<StoredEvent>) -> (state: RunState)
    ensures
        state@ == derive_spec(events@),
{
    let mut state = RunState::new();
    proof { assert(events@.subrange(0, events@.len() as int) =~= events@); }
    let mut i: usize = 0;
    while i < events.len()
        invariant
            i <= events@.len(),
            state@.broken is None,
            replay_from(state@, events@.subrange(i as int, events@.len() as int)) == derive_spec(events@),
        decreases events@.len() - i,
    {
        let ghost rest = events@.subrange(i as int, events@.len() as int);
        proof {
            assert(rest[0] == events@[i as int]);
            assert(rest.drop_first() =~= events@.subrange(i + 1, events@.len() as int));
        }
        match state.apply(&events[i]) {
            Ok(()) => {},
            Err(error) => {
                state.broken = Some(error.message());
                return state;
            },
        }
        i = i + 1;
    }
    proof { assert(events@.subrange(i as int, events@.len() as int) =~= Seq::<StoredEvent>::empty()); }
    state
}

/// The record any put builds for `node` carries `node`'s key.
proof fn lemma_current_node_key(nodes: Seq<NodeRecord>, node: String)
    ensures
        current_node(nodes, node).node@ == node@,
{
    lemma_find_keyed(nodes, node_key(), node@, 0);
}

/// A state moved into place is the state read back; every other node
/// reads as before.
proof fn lemma_put_state(nodes: Seq<NodeRecord>, node: String, state: Option<NodeState>, other: Seq<char>)
    ensures
        state_in(put_state(nodes, node, state), other) == if other == node@ { state } else { state_in(nodes, other) },
{
    lemma_current_node_key(nodes, node);
    lemma_put_keyed(nodes, node_key(), NodeRecord { state, ..current_node(nodes, node) }, other);
}

/// What is remembered for `node` is what is read back for it.
proof fn lemma_remember(pre_gate: Seq<(String, Option<NodeState>)>, node: String, state: Option<NodeState>)
    ensures
        pre_lookup(put_keyed(pre_gate, pre_key(), (node, state)), node@) == state,
{
    lemma_put_keyed(pre_gate, pre_key(), (node, state), node@);
}

/// Steps that succeed never mark the state broken.
proof fn lemma_apply_keeps_broken(s: RunStateV, event: StoredEvent)
    ensures
        apply_spec(s, event) matches Ok(next) ==> next.broken == s.broken,
{
}

/// Replaying `a` then `b` is replaying `a + b`, unless `a` already broke.
pub proof fn lemma_replay_split(s: RunStateV, a: Seq<StoredEvent>, b: Seq<StoredEvent>)
    requires
        s.broken is None,
    ensures
        replay_from(s, a + b) == if replay_from(s, a).broken is None { replay_from(replay_from(s, a), b) } else { replay_from(s, a) },
    decreases a.len(),
{
    if a.len() == 0 {
        assert(a + b =~= b);
    } else {
        assert((a + b)[0] == a[0]);
        assert((a + b).drop_first() =~= a.drop_first() + b);
        match apply_spec(s, a[0]) {
            Ok(next) => {
                lemma_apply_keeps_broken(s, a[0]);
                lemma_replay_split(next, a.drop_first(), b);
            },
            Err(error) => {},
        }
    }
}

/// A gate put to a person parks its node, and its resolution
/// restores exactly the state the node had before it: a wait round-trips.
pub proof fn law_a_resolved_gate_restores_its_node(
    s: RunStateV,
    node: String,
    waiting_seq: u64,
    resolved_seq: u64,
    external_ref: Option<String>,
    resolution: GateResolution,
)
    ensures
        ({
            let waiting = StoredEvent { seq: waiting_seq, node_id: Some(node), body: EventBody::Known(EventPayload::GateWaiting { external_ref }) };
            let resolved = StoredEvent { seq: resolved_seq, node_id: Some(node), body: EventBody::Known(EventPayload::GateResolved { resolution }) };
            apply_spec(s, waiting) matches Ok(parked) && {
                &&& state_in(parked.nodes, node@) == Some(NodeState::Waiting { external_ref })
                &&& apply_spec(parked, resolved) matches Ok(restored) && state_in(restored.nodes, node@) == state_in(s.nodes, node@)
            }
        }),
{
    let prior = state_in(s.nodes, node@);
    let parked_nodes = put_state(s.nodes, node, Some(NodeState::Waiting { external_ref }));
    let parked_pre = put_keyed(s.pre_gate, pre_key(), (node, prior));
    lemma_put_state(s.nodes, node, Some(NodeState::Waiting { external_ref }), node@);
    lemma_remember(s.pre_gate, node, prior);
    lemma_put_state(parked_nodes, node, pre_lookup(parked_pre, node@), node@);
}

/// A node that asks questions waits, and their answer reopens it
/// `Running`, owed the terminal its close deferred; the asking attempt's
/// tokens are closed when it asks.
pub proof fn law_answered_questions_reopen_their_node(
    s: RunStateV,
    node: String,
    asked_seq: u64,
    answered_seq: u64,
    tokens_used: TokenUsage,
)
    requires
        state_in(s.nodes, node@) == Some(NodeState::Running),
    ensures
        ({
            let asked = StoredEvent { seq: asked_seq, node_id: Some(node), body: EventBody::Known(EventPayload::QuestionsAsked { tokens_used }) };
            let answered = StoredEvent { seq: answered_seq, node_id: Some(node), body: EventBody::Known(EventPayload::QuestionsAnswered) };
            apply_spec(s, asked) matches Ok(waiting) && {
                &&& state_in(waiting.nodes, node@) == Some(NodeState::Waiting { external_ref: None })
                &&& current_node(waiting.nodes, node).tokens_closed == token_sum(current_node(s.nodes, node).tokens_closed, tokens_used)
                &&& apply_spec(waiting, answered) matches Ok(reopened) && state_in(reopened.nodes, node@) == Some(NodeState::Running)
            }
        }),
{
    let record = current_node(s.nodes, node);
    let asked_record = NodeRecord {
        state: Some(NodeState::Waiting { external_ref: None }),
        tokens_closed: token_sum(record.tokens_closed, tokens_used),
        ..record
    };
    lemma_current_node_key(s.nodes, node);
    lemma_put_keyed(s.nodes, node_key(), asked_record, node@);
    let waiting_nodes = put_keyed(s.nodes, node_key(), asked_record);
    let waiting_pre = put_keyed(s.pre_gate, pre_key(), (node, Some(NodeState::Running)));
    lemma_remember(s.pre_gate, node, Some(NodeState::Running));
    lemma_put_state(waiting_nodes, node, pre_lookup(waiting_pre, node@), node@);
}

/// An event under a kind this binary does not know is counted and named,
/// and never a reason to stop deriving what it does know.
pub proof fn law_unknown_kinds_are_named_never_fatal(s: RunStateV, seq: u64, node_id: Option<String>, kind: String)
    ensures
        apply_spec(s, StoredEvent { seq, node_id, body: EventBody::Unknown { kind } })
            == Ok::<RunStateV, ReplayErrorV>(RunStateV { unknown_kinds: s.unknown_kinds.push((seq, kind)), ..s }),
{
}

/// Replay stops at the first event the log cannot explain: the state is
/// what every event before it derived, marked broken with the diagnostic
/// naming that event; nothing after it is read.
pub proof fn law_replay_stops_at_the_first_unexplained_event(events: Seq<StoredEvent>, k: int)
    requires
        0 <= k < events.len(),
        derive_spec(events.take(k)).broken is None,
        apply_spec(derive_spec(events.take(k)), events[k]) is Err,
    ensures
        derive_spec(events) == (RunStateV {
            broken: Some(error_message(apply_spec(derive_spec(events.take(k)), events[k])->Err_0)),
            ..derive_spec(events.take(k))
        }),
{
    let prefix = events.take(k);
    let rest = events.skip(k);
    assert(prefix + rest =~= events);
    lemma_replay_split(empty_state(), prefix, rest);
    assert(rest[0] == events[k]);
}

/// A node's terminal with no start behind it breaks the log at that event.
pub proof fn law_a_terminal_without_a_start_breaks_the_log(events: Seq<StoredEvent>, k: int, node: String, outcome: String, tokens: TokenUsage)
    requires
        0 <= k < events.len(),
        derive_spec(events.take(k)).broken is None,
        !(state_in(derive_spec(events.take(k)).nodes, node@) matches Some(NodeState::Running)),
        events[k].node_id == Some(node),
        events[k].body == EventBody::Known(EventPayload::NodeFinished { outcome, tokens }),
    ensures
        derive_spec(events).broken == Some(node_sentence(events[k].seq, node@, "node_finished"@, "node_started"@)),
        derive_spec(events).nodes == derive_spec(events.take(k)).nodes,
{
    law_replay_stops_at_the_first_unexplained_event(events, k);
}

/// Replay reads a log one event at a time: extending an unbroken log by an
/// event derives what folding that event into its state derives.
pub proof fn law_replay_extends_one_event_at_a_time(events: Seq<StoredEvent>, event: StoredEvent)
    requires
        derive_spec(events).broken is None,
    ensures
        derive_spec(events.push(event)) == match apply_spec(derive_spec(events), event) {
            Ok(next) => next,
            Err(error) => RunStateV { broken: Some(error_message(error)), ..derive_spec(events) },
        },
{
    assert(events.push(event) =~= events + seq![event]);
    lemma_replay_split(empty_state(), events, seq![event]);
    let one = seq![event];
    assert(one[0] == event);
    assert(one.drop_first() =~= Seq::<StoredEvent>::empty());
    match apply_spec(derive_spec(events), event) {
        Ok(next) => {
            assert(replay_from(next, one.drop_first()) == next);
        },
        Err(_) => {},
    }
}

/// A terminal event closes its attempt's tokens into its node, a failure
/// exactly as a finish: replaying `node_failed` or `node_finished` for a
/// running node adds the tokens it carries to that node's closed tokens,
/// and every other node's record stays as it was.
pub proof fn law_a_terminal_closes_its_tokens(
    s: RunStateV,
    seq: u64,
    node: String,
    payload: EventPayload,
    tokens: TokenUsage,
    other: Seq<char>,
)
    requires
        state_in(s.nodes, node@) matches Some(NodeState::Running),
        (payload matches EventPayload::NodeFailed { tokens: t, .. } && t == tokens)
            || (payload matches EventPayload::NodeFinished { tokens: t, .. } && t == tokens),
    ensures
        apply_spec(s, StoredEvent { seq, node_id: Some(node), body: EventBody::Known(payload) }) matches Ok(next)
            && current_node(next.nodes, node).tokens_closed == token_sum(current_node(s.nodes, node).tokens_closed, tokens)
            && (other != node@ ==> lookup_keyed(next.nodes, node_key(), other) == lookup_keyed(s.nodes, node_key(), other)),
{
    let event = StoredEvent { seq, node_id: Some(node), body: EventBody::Known(payload) };
    let stepped = node_step(current_node(s.nodes, node), payload, seq);
    let next = RunStateV { nodes: put_keyed(s.nodes, node_key(), stepped), ..s };
    assert(apply_spec(s, event) == Ok::<RunStateV, ReplayErrorV>(next));
    lemma_find_keyed(s.nodes, node_key(), node@, 0);
    assert(stepped.node@ == node@);
    lemma_put_keyed(s.nodes, node_key(), stepped, node@);
    lemma_put_keyed(s.nodes, node_key(), stepped, other);
}

/// A run's spent total counts a failed attempt: a log that starts a node
/// and fails it, carrying `tokens`, derives a total of exactly `tokens`.
pub proof fn law_a_failed_attempt_counts_toward_the_total(
    node: String,
    started: u64,
    failed: u64,
    failure: Failure,
    retryable: bool,
    tokens: TokenUsage,
    problems: Vec<crate::events::DocumentProblem>,
)
    ensures
        tokens_total(derive_spec(seq![
            StoredEvent { seq: started, node_id: Some(node), body: EventBody::Known(EventPayload::NodeStarted) },
            StoredEvent { seq: failed, node_id: Some(node), body: EventBody::Known(EventPayload::NodeFailed { failure, retryable, tokens, problems }) },
        ]).nodes) == tokens,
{
    let start = StoredEvent { seq: started, node_id: Some(node), body: EventBody::Known(EventPayload::NodeStarted) };
    let fail = StoredEvent { seq: failed, node_id: Some(node), body: EventBody::Known(EventPayload::NodeFailed { failure, retryable, tokens, problems }) };
    let events = seq![start, fail];
    let s0 = empty_state();
    lemma_find_keyed(s0.nodes, node_key(), node@, 0);
    let r1 = node_step(current_node(s0.nodes, node), EventPayload::NodeStarted, started);
    let s1 = RunStateV { nodes: put_keyed(s0.nodes, node_key(), r1), ..s0 };
    assert(apply_spec(s0, start) == Ok::<RunStateV, ReplayErrorV>(s1));
    assert(s1.nodes =~= seq![r1]);
    lemma_put_keyed(s0.nodes, node_key(), r1, node@);
    assert(current_node(s1.nodes, node) == r1);
    assert(r1.tokens_closed == TokenUsage { input: 0, output: 0 });
    let r2 = node_step(r1, EventPayload::NodeFailed { failure, retryable, tokens, problems }, failed);
    let s2 = RunStateV { nodes: put_keyed(s1.nodes, node_key(), r2), ..s1 };
    assert(apply_spec(s1, fail) == Ok::<RunStateV, ReplayErrorV>(s2));
    lemma_find_keyed(s1.nodes, node_key(), node@, 0);
    assert(s2.nodes =~= seq![r2]);
    assert(events[0] == start);
    assert(events.drop_first() =~= seq![fail]);
    assert(seq![fail][0] == fail);
    assert(seq![fail].drop_first() =~= Seq::<StoredEvent>::empty());
    assert(replay_from(s2, Seq::<StoredEvent>::empty()) == s2);
    assert(replay_from(s1, seq![fail]) == s2);
    assert(derive_spec(events) == s2);
    assert(r2.tokens_closed == tokens);
    assert(s2.nodes.drop_last() =~= Seq::<NodeRecord>::empty());
    assert(tokens_total(Seq::<NodeRecord>::empty()) == TokenUsage { input: 0, output: 0 });
    assert(tokens_total(s2.nodes) == token_sum(TokenUsage { input: 0, output: 0 }, tokens));
    assert(token_sum(TokenUsage { input: 0, output: 0 }, tokens) == tokens);
}

/// How many events a log carries under one kind this binary does not know.
#[derive(Debug, Clone, PartialEq, Eq)]
pub struct UnknownKindCount {
    pub kind: String,
    pub events: usize,
}

/// How many of `entries` are under `kind`.
pub open spec fn count_kind(entries: Seq<(u64, String)>, kind: Seq<char>) -> nat
    decreases entries.len(),
{
    if entries.len() == 0 {
        0
    } else {
        count_kind(entries.drop_last(), kind) + if entries.last().1@ == kind { 1nat } else { 0nat }
    }
}

/// `counts` names every kind of `entries` once, sorted by name, each with
/// how many entries carry it.
pub open spec fn counts_exact(counts: Seq<UnknownKindCount>, entries: Seq<(u64, String)>) -> bool {
    &&& forall|i: int, j: int| 0 <= i < j < counts.len() ==> text_lt(#[trigger] counts[i].kind@, #[trigger] counts[j].kind@)
    &&& forall|i: int| 0 <= i < counts.len() ==> (#[trigger] counts[i]).events == count_kind(entries, counts[i].kind@)
        && counts[i].events > 0
    &&& forall|e: int| 0 <= e < entries.len() ==> exists|i: int| 0 <= i < counts.len() && (#[trigger] counts[i]).kind@ == (#[trigger] entries[e]).1@
}

proof fn lemma_count_kind_bound(entries: Seq<(u64, String)>, kind: Seq<char>)
    ensures
        count_kind(entries, kind) <= entries.len(),
    decreases entries.len(),
{
    if entries.len() > 0 {
        lemma_count_kind_bound(entries.drop_last(), kind);
    }
}

proof fn lemma_count_kind_present(entries: Seq<(u64, String)>, e: int)
    requires
        0 <= e < entries.len(),
    ensures
        count_kind(entries, entries[e].1@) > 0,
    decreases entries.len(),
{
    if e < entries.len() - 1 {
        assert(entries.drop_last()[e] == entries[e]);
        lemma_count_kind_present(entries.drop_last(), e);
    }
}

proof fn lemma_count_kind_witness(entries: Seq<(u64, String)>, kind: Seq<char>)
    requires
        count_kind(entries, kind) > 0,
    ensures
        exists|e: int| 0 <= e < entries.len() && (#[trigger] entries[e]).1@ == kind,
    decreases entries.len(),
{
    if entries.last().1@ == kind {
        assert(entries[entries.len() - 1].1@ == kind);
    } else {
        lemma_count_kind_witness(entries.drop_last(), kind);
        let e = choose|e: int| 0 <= e < entries.drop_last().len() && (#[trigger] entries.drop_last()[e]).1@ == kind;
        assert(entries[e] == entries.drop_last()[e]);
    }
}

proof fn lemma_count_kind_step(seen: Seq<(u64, String)>, now: Seq<(u64, String)>)
    requires
        now.len() > 0,
        now.drop_last() == seen,
    ensures
        forall|x: Seq<char>| #[trigger] count_kind(now, x) == count_kind(seen, x) + if now.last().1@ == x { 1nat } else { 0nat },
{
}

/// Names sorted strictly.
pub open spec fn kinds_sorted(counts: Seq<UnknownKindCount>) -> bool {
    forall|i: int, j: int| 0 <= i < j < counts.len() ==> text_lt(#[trigger] counts[i].kind@, #[trigger] counts[j].kind@)
}

proof fn lemma_kinds_sorted_insert(before: Seq<UnknownKindCount>, q: int, item: UnknownKindCount)
    requires
        0 <= q <= before.len(),
        kinds_sorted(before),
        forall|t: int| 0 <= t < q ==> text_lt(#[trigger] before[t].kind@, item.kind@),
        q < before.len() ==> text_lt(item.kind@, before[q].kind@),
    ensures
        kinds_sorted(before.insert(q, item)),
{
    let after = before.insert(q, item);
    assert forall|i: int, j: int| 0 <= i < j < after.len() implies text_lt(#[trigger] after[i].kind@, #[trigger] after[j].kind@) by {
        if j < q {
            assert(after[i] == before[i] && after[j] == before[j]);
        } else if j == q {
            assert(after[i] == before[i] && after[j] == item);
        } else if i < q {
            assert(after[i] == before[i] && after[j] == before[j - 1]);
            crate::text::lemma_text_lt_order(before[i].kind@, item.kind@, before[q].kind@);
            if j - 1 > q {
                assert(text_lt(before[q].kind@, before[j - 1].kind@));
            }
            crate::text::lemma_text_lt_order(before[i].kind@, before[q].kind@, before[j - 1].kind@);
        } else if i == q {
            assert(after[i] == item && after[j] == before[j - 1]);
            if j - 1 > q {
                assert(text_lt(before[q].kind@, before[j - 1].kind@));
            }
            crate::text::lemma_text_lt_order(item.kind@, before[q].kind@, before[j - 1].kind@);
        } else {
            assert(after[i] == before[i - 1] && after[j] == before[j - 1]);
        }
    }
}

/// The unknown kinds a derived state skipped, grouped by kind and sorted by
/// name; empty for a log this binary interprets in full.
pub fn unknown_kind_counts(state: &RunState) -> (counts: Vec<UnknownKindCount>)
    ensures
        counts_exact(counts@, state.unknown_kinds@),
{
    let entries = &state.unknown_kinds;
    let mut counts: Vec<UnknownKindCount> = Vec::new();
    let mut n: usize = 0;
    while n < entries.len()
        invariant
            n <= entries@.len(),
            counts_exact(counts@, entries@.take(n as int)),
        decreases entries@.len() - n,
    {
        let kind = &entries[n].1;
        let ghost before = counts@;
        let ghost seen = entries@.take(n as int);
        let ghost now = entries@.take(n + 1);
        proof {
            assert(now.drop_last() =~= seen);
            assert(now.last() == entries@[n as int]);
            lemma_count_kind_step(seen, now);
            lemma_count_kind_bound(seen, kind@);
        }
        let mut q: usize = 0;
        while q < counts.len() && crate::text::text_less(counts[q].kind.as_str(), kind.as_str())
            invariant
                q <= counts@.len(),
                counts@ == before,
                forall|t: int| 0 <= t < q ==> text_lt(#[trigger] counts@[t].kind@, kind@),
            decreases counts@.len() - q,
        {
            q = q + 1;
        }
        if q < counts.len() && same_text(&counts[q].kind, kind) {
            let bumped = UnknownKindCount { kind: counts[q].kind.clone(), events: counts[q].events + 1 };
            counts.set(q, bumped);
            proof {
                assert forall|i: int| 0 <= i < counts@.len() implies (#[trigger] counts@[i]).events == count_kind(now, counts@[i].kind@)
                    && counts@[i].events > 0 by {
                    if i != q {
                        assert(counts@[i] == before[i]);
                        if i < q {
                            assert(text_lt(before[i].kind@, before[q as int].kind@));
                        } else {
                            assert(text_lt(before[q as int].kind@, before[i].kind@));
                        }
                        crate::text::lemma_text_lt_order(before[i].kind@, kind@, kind@);
                    }
                }
                assert forall|i: int, j: int| 0 <= i < j < counts@.len() implies text_lt(#[trigger] counts@[i].kind@, #[trigger] counts@[j].kind@) by {
                    assert(text_lt(before[i].kind@, before[j].kind@));
                }
                assert forall|e: int| 0 <= e < now.len() implies exists|i: int| 0 <= i < counts@.len() && (#[trigger] counts@[i]).kind@ == (#[trigger] now[e]).1@ by {
                    if e < n {
                        assert(now[e] == seen[e]);
                        let i = choose|i: int| 0 <= i < before.len() && (#[trigger] before[i]).kind@ == (#[trigger] seen[e]).1@;
                        assert(counts@[i].kind@ == before[i].kind@);
                    } else {
                        assert(counts@[q as int].kind@ == now[e].1@);
                    }
                }
            }
        } else {
            proof {
                if q < before.len() {
                    crate::text::lemma_text_lt_order(before[q as int].kind@, kind@, kind@);
                }
                assert forall|t: int| 0 <= t < before.len() implies (#[trigger] before[t]).kind@ != kind@ by {
                    crate::text::lemma_text_lt_order(before[t].kind@, kind@, kind@);
                    if t > q {
                        assert(text_lt(before[q as int].kind@, before[t].kind@));
                        crate::text::lemma_text_lt_order(kind@, before[q as int].kind@, before[t].kind@);
                    }
                }
                if count_kind(seen, kind@) > 0 {
                    lemma_count_kind_witness(seen, kind@);
                    let e = choose|e: int| 0 <= e < seen.len() && (#[trigger] seen[e]).1@ == kind@;
                    let i = choose|i: int| 0 <= i < before.len() && (#[trigger] before[i]).kind@ == (#[trigger] seen[e]).1@;
                }
            }
            let item = UnknownKindCount { kind: kind.clone(), events: 1 };
            counts.insert(q, item);
            proof {
                lemma_kinds_sorted_insert(before, q as int, item);
                assert forall|i: int| 0 <= i < counts@.len() implies (#[trigger] counts@[i]).events == count_kind(now, counts@[i].kind@)
                    && counts@[i].events > 0 by {
                    if i < q {
                        assert(counts@[i] == before[i]);
                    } else if i > q {
                        assert(counts@[i] == before[i - 1]);
                    }
                }
                assert forall|e: int| 0 <= e < now.len() implies exists|i: int| 0 <= i < counts@.len() && (#[trigger] counts@[i]).kind@ == (#[trigger] now[e]).1@ by {
                    if e < n {
                        assert(now[e] == seen[e]);
                        let i = choose|i: int| 0 <= i < before.len() && (#[trigger] before[i]).kind@ == (#[trigger] seen[e]).1@;
                        if i < q {
                            assert(counts@[i] == before[i]);
                        } else {
                            assert(counts@[i + 1] == before[i]);
                        }
                    } else {
                        assert(counts@[q as int].kind@ == now[e].1@);
                    }
                }
            }
        }
        n = n + 1;
    }
    proof { assert(entries@.take(entries@.len() as int) =~= entries@); }
    counts
}

/// Every node's closed tokens, summed, saturating.
pub open spec fn tokens_total(records: Seq<NodeRecord>) -> TokenUsage
    decreases records.len(),
{
    if records.len() == 0 {
        TokenUsage { input: 0, output: 0 }
    } else {
        token_sum(tokens_total(records.drop_last()), records.last().tokens_closed)
    }
}

/// The later of two optional positions, an absent one counting as earliest.
pub open spec fn later(a: Option<u64>, b: Option<u64>) -> Option<u64> {
    match (a, b) {
        (Some(x), Some(y)) => Some(if x >= y { x } else { y }),
        (Some(x), None) => Some(x),
        (None, _) => b,
    }
}

/// `at` comes after `other`, an absent position counting as earliest.
pub open spec fn after(at: u64, other: Option<u64>) -> bool {
    match other {
        Some(o) => at > o,
        None => true,
    }
}

/// A resolution recorded while the run was parked and that nothing has
/// consumed: it is newer than the node's last terminal and re-route, than
/// the run's last pause, and than the escalation standing on that node.
pub open spec fn pre_seeded_spec(s: RunStateV, node: Seq<char>) -> Option<GateResolution> {
    match lookup_keyed(s.gates, gate_key(), node) {
        None => None,
        Some(gate) => match gate.resolved {
            None => None,
            Some((resolution, at)) => {
                let consumed = match lookup_keyed(s.nodes, node_key(), node) {
                    Some(record) => later(record.last_terminal, match record.last_reroute {
                        Some(r) => Some(r.seq),
                        None => None,
                    }),
                    None => None,
                };
                let blocker = later(consumed, s.run.paused_at);
                if after(at, blocker) && after(at, gate.waiting) { Some(resolution) } else { None }
            },
        },
    }
}

fn later_of(a: Option<u64>, b: Option<u64>) -> (l: Option<u64>)
    ensures
        l == later(a, b),
{
    match (a, b) {
        (Some(x), Some(y)) => Some(if x >= y { x } else { y }),
        (Some(x), None) => Some(x),
        (None, _) => b,
    }
}

fn is_after(at: u64, other: Option<u64>) -> (is: bool)
    ensures
        is == after(at, other),
{
    match other {
        Some(o) => at > o,
        None => true,
    }
}

impl RunState {
    /// Whether an invocation already woke this run: its run record says
    /// so, a node was heard from, or replay stopped on something a birth
    /// never writes.
    pub fn woken(&self) -> (woken: bool)
        ensures
            woken == (self.run.paused_at is Some || self.run.resumed || self.nodes.records@.len() > 0 || self.broken is Some),
    {
        self.run.woken() || !self.nodes.is_empty() || self.broken.is_some()
    }

    /// What the whole run has spent: every node's closed attempts.
    pub fn total_tokens(&self) -> (total: TokenUsage)
        ensures
            total == tokens_total(self.nodes.records@),
    {
        let mut total = TokenUsage { input: 0, output: 0 };
        let mut i: usize = 0;
        while i < self.nodes.records.len()
            invariant
                i <= self.nodes.records@.len(),
                total == tokens_total(self.nodes.records@.take(i as int)),
            decreases self.nodes.records@.len() - i,
        {
            proof { assert(self.nodes.records@.take(i + 1).drop_last() =~= self.nodes.records@.take(i as int)); }
            total = total.plus(self.nodes.records[i].tokens_closed);
            i = i + 1;
        }
        proof { assert(self.nodes.records@.take(i as int) =~= self.nodes.records@); }
        total
    }

    /// The decision a person recorded for `node` while the run was parked
    /// and that nothing has consumed yet.
    pub fn pre_seeded(&self, node: &String) -> (seeded: Option<&GateResolution>)
        ensures
            seeded matches Some(r) ==> pre_seeded_spec(self@, node@) == Some(*r),
            seeded is None ==> pre_seeded_spec(self@, node@) is None,
    {
        proof {
            crate::ledger::lemma_find_gate_keyed(self.gates.records@, node@, 0);
            crate::ledger::lemma_find_record_keyed(self.nodes.records@, node@, 0);
        }
        let gate = match self.gates.get(node) {
            Some(gate) => gate,
            None => return None,
        };
        let (resolution, at) = match &gate.resolved {
            Some((resolution, at)) => (resolution, *at),
            None => return None,
        };
        let consumed = match self.nodes.get(node) {
            Some(record) => later_of(record.last_terminal, match &record.last_reroute {
                Some(r) => Some(r.seq),
                None => None,
            }),
            None => None,
        };
        let blocker = later_of(consumed, self.run.paused_at);
        if is_after(at, blocker) && is_after(at, gate.waiting) {
            Some(resolution)
        } else {
            None
        }
    }
}

/// The findings posted, in log order, each as it was posted.
pub open spec fn posted_findings(findings: Seq<(Option<String>, Finding)>) -> Seq<Finding> {
    findings.map_values(|entry: (Option<String>, Finding)| entry.1)
}

/// Nothing was derived from the log: the run was never paused, resumed or
/// ended, every node on record is a record of nothing, and no gate, task,
/// unknown kind, stop, artifact or finding is on record.
pub open spec fn derives_nothing_spec(s: RunStateV) -> bool {
    &&& s.run == RunLedger { paused_at: None, resumed: false, terminal: None }
    &&& forall|i: int| 0 <= i < s.nodes.len() ==> #[trigger] s.nodes[i] == crate::ledger::fresh_node(s.nodes[i].node)
    &&& s.gates.len() == 0
    &&& s.tasks.len() == 0
    &&& s.unknown_kinds.len() == 0
    &&& s.broken is None
    &&& s.pre_gate.len() == 0
    &&& s.artifacts.len() == 0
    &&& s.findings.len() == 0
}

/// A record of nothing: never started, failed, finished or re-routed.
fn is_blank_record(record: &NodeRecord) -> (blank: bool)
    ensures
        blank == (*record == crate::ledger::fresh_node(record.node)),
{
    record.state.is_none() && record.attempts == 0 && record.reroutes == 0 && record.last_failed.is_none()
        && record.last_finished.is_none() && record.last_terminal.is_none() && record.last_reroute.is_none()
        && record.tokens_closed.input == 0 && record.tokens_closed.output == 0
}

impl RunState {
    /// Every finding that stands, in the order each was first posted.
    /// Never deduplicated here: two nodes that find the same thing each
    /// keep their own posting.
    pub fn effective_findings(&self) -> (findings: Vec<Finding>)
        ensures
            findings@ == posted_findings(self.findings@),
    {
        let mut findings: Vec<Finding> = Vec::new();
        let mut i: usize = 0;
        while i < self.findings.len()
            invariant
                i <= self.findings@.len(),
                findings@ == posted_findings(self.findings@.take(i as int)),
            decreases self.findings@.len() - i,
        {
            proof {
                assert(posted_findings(self.findings@.take(i + 1)) =~= posted_findings(self.findings@.take(i as int)).push(self.findings@[i as int].1));
            }
            findings.push(self.findings[i].1.duplicate());
            i = i + 1;
        }
        proof {
            assert(self.findings@.take(i as int) =~= self.findings@);
        }
        findings
    }

    /// Whether nothing has been derived from this state's log beyond the
    /// fact that a node was heard from.
    pub fn derives_nothing(&self) -> (nothing: bool)
        ensures
            nothing == derives_nothing_spec(self@),
    {
        let mut i: usize = 0;
        while i < self.nodes.records.len()
            invariant
                i <= self.nodes.records@.len(),
                forall|k: int| 0 <= k < i ==> #[trigger] self.nodes.records@[k] == crate::ledger::fresh_node(self.nodes.records@[k].node),
            decreases self.nodes.records@.len() - i,
        {
            if !is_blank_record(&self.nodes.records[i]) {
                return false;
            }
            i = i + 1;
        }
        self.run.paused_at.is_none() && !self.run.resumed && self.run.terminal.is_none() && self.gates.records.len() == 0
            && self.tasks.records.len() == 0 && self.unknown_kinds.len() == 0 && self.broken.is_none()
            && self.pre_gate.len() == 0 && self.artifacts.len() == 0 && self.findings.len() == 0
    }
}

} // verus!
