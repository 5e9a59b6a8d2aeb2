//! The scheduler's decision function — pure.
//!
//! [`decide`] looks at the workflow, the state its log derives, and the
//! policy the run froze, and says what the run does next: execute a batch
//! of independently-ready nodes (up to `max_parallel_nodes`), emit a
//! re-route, pause, fail, or finish. Six questions, asked in order: is a
//! gate mid-flight, is a node waiting on a person, did an answer leave a
//! node owing its terminal, did a crash leave nodes running, is there a
//! failure to resolve, and what is ready now. The first that answers
//! decides.

use vstd::prelude::*;

use crate::ledger::{
    attempts_of, external_ref_of, is_finished, is_running, record_of, state_of, Failure, NodeLedger,
    NodeRecord, NodeState, Reroute,
};
use crate::modes::{
    dependencies_in_mode, dependencies_of, in_mode, mode_dependency, opt_texts, ModeDependencies,
};
use crate::replay::{answered_unfinished_spec, RunState};
use crate::text::{contains_text, texts};
use crate::workflow::{
    is_external_gate_kind, is_gate_kind, node_asks, node_ids, DefaultOnFailure, ModeEntry, Node,
    NodeKind, OnInterrupt, Workflow,
};

verus! {

/// A node to start, and the attempt number its start carries.
#[derive(Debug, Clone, PartialEq, Eq)]
pub struct NodeAttempt {
    pub node: String,
    pub attempt: u32,
}

/// Why a run parks.
#[derive(Debug, Clone, PartialEq, Eq)]
pub enum PauseReason {
    /// A node failed and nothing re-routes it.
    NodeFailed { node: String, failure: Failure },
    /// A resume found interrupted nodes it must not guess about.
    UncertainOrphans(Vec<String>),
    /// Nothing is runnable: `node` waits on `on`, which will not finish.
    Blocked { node: String, on: Vec<String> },
    /// The run's token cap is spent.
    BudgetExhausted { spent: u64, cap: u64 },
    /// A loop wants another iteration past its cap.
    LoopOverrun { node: String, cap: u32 },
}

/// What the run does next. A batch of `Execute` entries is never empty;
/// the scheduler never mixes control actions into the same step as node
/// executions.
#[derive(Debug, Clone, PartialEq, Eq)]
pub enum Decision {
    /// Independently-ready nodes to execute concurrently, in workflow
    /// declaration order.
    Execute(Vec<NodeAttempt>),
    Reroute { from: String, to: String, attempt: u32, max_reroutes: u32, cause: Failure },
    Pause { reason: PauseReason },
    /// A failure the run's `defaults.on_failure` closes the run on.
    Fail { reason: PauseReason },
    /// A node's re-routes are exhausted: a person decides.
    GateExhaustedReroutes { node: String, goto: String, max_reroutes: u32, cause: Failure },
    /// A forge gate is ready and was never published.
    PublishGate { node: String },
    /// A published gate is unresolved: ask the forge under this handle.
    PollGate { node: String, external_ref: String },
    /// An internal gate is ready: ask here.
    ResolveInternalGate { node: String },
    /// A node waits on the questions it asked.
    AskQuestions { node: String },
    /// A node's questions were answered and its close owes a terminal.
    FinishAnswered { node: String },
    Finish,
    Broken { diagnostic: String },
}

/// What the run was frozen with: the knobs every decision reads.
#[derive(Debug, Clone, PartialEq, Eq)]
pub struct Policy {
    /// How many independently-ready nodes may run at once.
    pub max_parallel_nodes: u32,
    /// What a node with no `on_interrupt` of its own inherits.
    pub on_interrupt: OnInterrupt,
    /// What a failed node with no `on_failure` of its own does to the run.
    pub on_failure: DefaultOnFailure,
    /// The nodes this run's mode includes; `None` when every node is in.
    pub mode_nodes: Option<Vec<String>>,
}

/// A pause reason, read as plain values.
pub enum PauseReasonV {
    NodeFailed { node: Seq<char>, failure: Seq<char> },
    UncertainOrphans(Seq<Seq<char>>),
    Blocked { node: Seq<char>, on: Set<Seq<char>> },
    BudgetExhausted { spent: u64, cap: u64 },
    LoopOverrun { node: Seq<char>, cap: u32 },
}

/// A decision, read as plain values.
pub enum DecisionV {
    Execute(Seq<(Seq<char>, u32)>),
    Reroute { from: Seq<char>, to: Seq<char>, attempt: u32, max_reroutes: u32, cause: Seq<char> },
    Pause { reason: PauseReasonV },
    Fail { reason: PauseReasonV },
    GateExhaustedReroutes { node: Seq<char>, goto: Seq<char>, max_reroutes: u32, cause: Seq<char> },
    PublishGate { node: Seq<char> },
    PollGate { node: Seq<char>, external_ref: Seq<char> },
    ResolveInternalGate { node: Seq<char> },
    AskQuestions { node: Seq<char> },
    FinishAnswered { node: Seq<char> },
    Finish,
    Broken { diagnostic: Seq<char> },
}

pub open spec fn pause_view(reason: PauseReason) -> PauseReasonV {
    match reason {
        PauseReason::NodeFailed { node, failure } => PauseReasonV::NodeFailed { node: node@, failure: failure.message@ },
        PauseReason::UncertainOrphans(nodes) => PauseReasonV::UncertainOrphans(texts(nodes@)),
        PauseReason::Blocked { node, on } => PauseReasonV::Blocked { node: node@, on: texts(on@).to_set() },
        PauseReason::BudgetExhausted { spent, cap } => PauseReasonV::BudgetExhausted { spent, cap },
        PauseReason::LoopOverrun { node, cap } => PauseReasonV::LoopOverrun { node: node@, cap },
    }
}

pub open spec fn batch_view(batch: Seq<NodeAttempt>) -> Seq<(Seq<char>, u32)> {
    batch.map_values(|a: NodeAttempt| (a.node@, a.attempt))
}

pub open spec fn decision_view(decision: Decision) -> DecisionV {
    match decision {
        Decision::Execute(batch) => DecisionV::Execute(batch_view(batch@)),
        Decision::Reroute { from, to, attempt, max_reroutes, cause } =>
            DecisionV::Reroute { from: from@, to: to@, attempt, max_reroutes, cause: cause.message@ },
        Decision::Pause { reason } => DecisionV::Pause { reason: pause_view(reason) },
        Decision::Fail { reason } => DecisionV::Fail { reason: pause_view(reason) },
        Decision::GateExhaustedReroutes { node, goto, max_reroutes, cause } =>
            DecisionV::GateExhaustedReroutes { node: node@, goto: goto@, max_reroutes, cause: cause.message@ },
        Decision::PublishGate { node } => DecisionV::PublishGate { node: node@ },
        Decision::PollGate { node, external_ref } => DecisionV::PollGate { node: node@, external_ref: external_ref@ },
        Decision::ResolveInternalGate { node } => DecisionV::ResolveInternalGate { node: node@ },
        Decision::AskQuestions { node } => DecisionV::AskQuestions { node: node@ },
        Decision::FinishAnswered { node } => DecisionV::FinishAnswered { node: node@ },
        Decision::Finish => DecisionV::Finish,
        Decision::Broken { diagnostic } => DecisionV::Broken { diagnostic: diagnostic@ },
    }
}

pub open spec fn opt_decision_view(decision: Option<Decision>) -> Option<DecisionV> {
    match decision {
        Some(d) => Some(decision_view(d)),
        None => None,
    }
}

// ---------------------------------------------------------------------
// The board every question reads.

/// The ids the policy's mode selects.
pub open spec fn selection(policy: Policy) -> Option<Seq<String>> {
    match policy.mode_nodes {
        Some(ids) => Some(ids@),
        None => None,
    }
}

/// The policy's mode schedules `id`.
pub open spec fn included(policy: Policy, id: Seq<char>) -> bool {
    in_mode(selection(policy), id)
}

/// `d` is what the included node `id` waits on under the mode.
pub open spec fn board_dep(workflow: Workflow, policy: Policy, id: Seq<char>, d: Seq<char>) -> bool {
    &&& included(policy, id)
    &&& node_ids(workflow.nodes@).contains(id)
    &&& mode_dependency(workflow.nodes@, selection(policy), id, d)
}

pub open spec fn finished(state: RunState, id: Seq<char>) -> bool {
    is_finished(state_of(state.nodes, id))
}

pub open spec fn has_state(state: RunState, id: Seq<char>) -> bool {
    state_of(state.nodes, id) is Some
}

/// Everything `id` waits on has finished.
pub open spec fn deps_satisfied(workflow: Workflow, state: RunState, policy: Policy, id: Seq<char>) -> bool {
    forall|d: Seq<char>| #[trigger] board_dep(workflow, policy, id, d) ==> finished(state, d)
}

/// `node` names `id` as its failure re-route or as a gate option's target.
pub open spec fn targets(node: Node, id: Seq<char>) -> bool {
    ||| (node.on_failure matches Some(of) && of.goto@ == id)
    ||| (match node.kind {
        NodeKind::Gate { on, .. } => exists|r: int| 0 <= r < on@.len() && (#[trigger] on@[r]).target@ == id,
        _ => false,
    })
}

/// Only a re-route or a gate's `on:` may ever start `id`: it is such a
/// target, it waits on nothing, and nothing in the ordinary graph waits
/// on it.
pub open spec fn reroute_only(workflow: Workflow, policy: Policy, id: Seq<char>) -> bool {
    &&& exists|m: int| 0 <= m < workflow.nodes@.len() && included(policy, workflow.nodes@[m].id@)
            && #[trigger] targets(workflow.nodes@[m], id)
    &&& forall|d: Seq<char>| !#[trigger] board_dep(workflow, policy, id, d)
    &&& forall|m: int| 0 <= m < workflow.nodes@.len() && included(policy, #[trigger] workflow.nodes@[m].id@)
            ==> !board_dep(workflow, policy, workflow.nodes@[m].id@, id)
}

/// The attempt number `id`'s next start carries.
pub open spec fn next_attempt(state: RunState, id: Seq<char>) -> u32 {
    (attempts_of(state.nodes, id) + 1) as u32
}

/// No record has run out of attempt numbers.
pub open spec fn attempts_bounded(state: RunState) -> bool {
    forall|i: int| 0 <= i < state.nodes.records@.len() ==> (#[trigger] state.nodes.records@[i]).attempts < u32::MAX
}

/// The first node at or after `from` that `pred` accepts.
pub open spec fn first_from(nodes: Seq<Node>, pred: spec_fn(Node) -> bool, from: int) -> Option<int>
    decreases nodes.len() - from,
{
    if from < 0 || from >= nodes.len() {
        None
    } else if pred(nodes[from]) {
        Some(from)
    } else {
        first_from(nodes, pred, from + 1)
    }
}

/// How a ready or re-opened gate is driven: poll the handle it was
/// published under, publish it for the first time, or ask here.
pub open spec fn drive_gate_spec(state: RunState, node: Node) -> DecisionV {
    match external_ref_of(state.gates, node.id@) {
        Some(r) => DecisionV::PollGate { node: node.id@, external_ref: r@ },
        None => if is_external_gate_kind(node.kind) {
            DecisionV::PublishGate { node: node.id@ }
        } else {
            DecisionV::ResolveInternalGate { node: node.id@ }
        },
    }
}

/// Question 1: a gate left running is re-driven, never restarted.
pub open spec fn gate_step_spec(workflow: Workflow, state: RunState, policy: Policy) -> Option<DecisionV> {
    match first_from(workflow.nodes@, |n: Node| included(policy, n.id@) && is_gate_kind(n.kind)
        && is_running(state_of(state.nodes, n.id@)), 0) {
        Some(i) => Some(drive_gate_spec(state, workflow.nodes@[i])),
        None => None,
    }
}

pub open spec fn is_waiting(state: Option<NodeState>) -> bool {
    state matches Some(NodeState::Waiting { .. })
}

/// Question 2: a node waiting on a person.
pub open spec fn waiting_step_spec(workflow: Workflow, state: RunState, policy: Policy) -> Option<DecisionV> {
    match first_from(workflow.nodes@, |n: Node| included(policy, n.id@) && is_waiting(state_of(state.nodes, n.id@)), 0) {
        Some(i) => {
            let node = workflow.nodes@[i];
            let external_ref = match state_of(state.nodes, node.id@) {
                Some(NodeState::Waiting { external_ref }) => external_ref,
                _ => None,
            };
            Some(if is_gate_kind(node.kind) {
                match external_ref {
                    Some(r) => DecisionV::PollGate { node: node.id@, external_ref: r@ },
                    None => if is_external_gate_kind(node.kind) {
                        DecisionV::PublishGate { node: node.id@ }
                    } else {
                        DecisionV::ResolveInternalGate { node: node.id@ }
                    },
                }
            } else if node_asks(node) {
                DecisionV::AskQuestions { node: node.id@ }
            } else {
                DecisionV::Execute(seq![(node.id@, next_attempt(state, node.id@))])
            })
        },
        None => None,
    }
}

/// Question 3: an answered node owes its terminal.
pub open spec fn answered_step_spec(workflow: Workflow, state: RunState, policy: Policy) -> Option<DecisionV> {
    match first_from(workflow.nodes@, |n: Node| included(policy, n.id@) && answered_unfinished_spec(state, n.id@), 0) {
        Some(i) => Some(DecisionV::FinishAnswered { node: workflow.nodes@[i].id@ }),
        None => None,
    }
}

/// The `on_interrupt` a node resolves to.
pub open spec fn interrupt_of(node: Node, policy: Policy) -> OnInterrupt {
    match node.on_interrupt {
        Some(own) => own,
        None => policy.on_interrupt,
    }
}

/// The included nodes a crash left running, gates excepted.
pub open spec fn is_orphan(state: RunState, policy: Policy, node: Node) -> bool {
    included(policy, node.id@) && !is_gate_kind(node.kind) && is_running(state_of(state.nodes, node.id@))
}

pub open spec fn orphans(workflow: Workflow, state: RunState, policy: Policy) -> Seq<Node> {
    workflow.nodes@.filter(|n: Node| is_orphan(state, policy, n))
}

pub open spec fn is_uncertain(policy: Policy, node: Node) -> bool {
    interrupt_of(node, policy) == OnInterrupt::FailIfUncertain
}

/// Question 4: orphans restart together, unless any of them must not be
/// guessed about, which pauses them all.
pub open spec fn orphan_step_spec(workflow: Workflow, state: RunState, policy: Policy) -> Option<DecisionV> {
    let orphaned = orphans(workflow, state, policy);
    let uncertain = orphaned.filter(|n: Node| is_uncertain(policy, n));
    if orphaned.len() == 0 {
        None
    } else if uncertain.len() > 0 {
        Some(DecisionV::Pause { reason: PauseReasonV::UncertainOrphans(node_ids(uncertain)) })
    } else {
        Some(DecisionV::Execute(orphaned.map_values(|n: Node| (n.id@, next_attempt(state, n.id@)))))
    }
}

/// Whether a record's last re-route came after its last failure.
pub open spec fn rerouted_after_failure(record: NodeRecord) -> bool {
    match record.last_reroute {
        Some(reroute) => match record.last_failed {
            Some(failed) => reroute.seq > failed,
            None => true,
        },
        None => false,
    }
}

/// A failure with no re-route after it.
pub open spec fn unrerouted_spec(policy: Policy, node: Node, failure: Failure, reroutes: u32) -> Option<DecisionV> {
    match node.on_failure {
        Some(of) => if reroutes < of.max_reroutes {
            Some(DecisionV::Reroute { from: node.id@, to: of.goto@, attempt: (reroutes + 1) as u32,
                max_reroutes: of.max_reroutes, cause: failure.message@ })
        } else {
            Some(DecisionV::GateExhaustedReroutes { node: node.id@, goto: of.goto@,
                max_reroutes: of.max_reroutes, cause: failure.message@ })
        },
        None => {
            let reason = PauseReasonV::NodeFailed { node: node.id@, failure: failure.message@ };
            match policy.on_failure {
                DefaultOnFailure::Pause => Some(DecisionV::Pause { reason }),
                DefaultOnFailure::Abort => Some(DecisionV::Fail { reason }),
                DefaultOnFailure::Continue => None,
            }
        },
    }
}

/// A failure already re-routed to `to` at `reroute_seq`.
pub open spec fn after_reroute_spec(state: RunState, node: Node, to: Seq<char>, reroute_seq: u64) -> Option<DecisionV> {
    let (finished_at, failed_at) = match record_of(state.nodes, to) {
        Some(r) => (r.last_finished, r.last_failed),
        None => (None, None),
    };
    if finished_at matches Some(seq) && seq > reroute_seq {
        Some(if is_gate_kind(node.kind) {
            drive_gate_spec(state, node)
        } else {
            DecisionV::Execute(seq![(node.id@, next_attempt(state, node.id@))])
        })
    } else if failed_at matches Some(seq) && seq > reroute_seq {
        None
    } else {
        Some(DecisionV::Execute(seq![(to, next_attempt(state, to))]))
    }
}

/// What a failed included node at `i` answers, if anything.
pub open spec fn failure_at(workflow: Workflow, state: RunState, policy: Policy, i: int) -> Option<DecisionV> {
    let node = workflow.nodes@[i];
    if !included(policy, node.id@) {
        None
    } else {
        match state_of(state.nodes, node.id@) {
            Some(NodeState::Failed { failure }) => {
                let record = record_of(state.nodes, node.id@).unwrap();
                if rerouted_after_failure(record) {
                    let reroute = record.last_reroute.unwrap();
                    after_reroute_spec(state, node, reroute.to@, reroute.seq)
                } else {
                    unrerouted_spec(policy, node, failure, record.reroutes)
                }
            },
            _ => None,
        }
    }
}

/// Question 5: failures, one at a time, in declaration order.
pub open spec fn failure_from(workflow: Workflow, state: RunState, policy: Policy, from: int) -> Option<DecisionV>
    decreases workflow.nodes@.len() - from,
{
    if from < 0 || from >= workflow.nodes@.len() {
        None
    } else {
        match failure_at(workflow, state, policy, from) {
            Some(d) => Some(d),
            None => failure_from(workflow, state, policy, from + 1),
        }
    }
}

/// A gate nothing has touched whose dependencies are done.
pub open spec fn is_ready_gate(workflow: Workflow, state: RunState, policy: Policy, node: Node) -> bool {
    &&& included(policy, node.id@)
    &&& is_gate_kind(node.kind)
    &&& !has_state(state, node.id@)
    &&& !reroute_only(workflow, policy, node.id@)
    &&& deps_satisfied(workflow, state, policy, node.id@)
}

/// A fresh ordinary node whose dependencies are done.
pub open spec fn is_ready_node(workflow: Workflow, state: RunState, policy: Policy, node: Node) -> bool {
    &&& included(policy, node.id@)
    &&& !is_gate_kind(node.kind)
    &&& !has_state(state, node.id@)
    &&& !reroute_only(workflow, policy, node.id@)
    &&& deps_satisfied(workflow, state, policy, node.id@)
}

pub open spec fn ready_nodes_of(workflow: Workflow, state: RunState, policy: Policy) -> Seq<Node> {
    workflow.nodes@.filter(|n: Node| is_ready_node(workflow, state, policy, n))
}

/// How many nodes one step may start: at least one.
pub open spec fn capacity(policy: Policy) -> int {
    if policy.max_parallel_nodes == 0 { 1 } else { policy.max_parallel_nodes as int }
}

/// An included node that keeps the run from finishing.
pub open spec fn is_stuck(workflow: Workflow, state: RunState, policy: Policy, node: Node) -> bool {
    &&& included(policy, node.id@)
    &&& !finished(state, node.id@)
    &&& !(reroute_only(workflow, policy, node.id@) && !has_state(state, node.id@))
}

pub open spec fn is_failed(state: Option<NodeState>) -> bool {
    state matches Some(NodeState::Failed { .. })
}

/// Question 6: what is ready now, and what it means when nothing is.
pub open spec fn ready_batch_spec(workflow: Workflow, state: RunState, policy: Policy) -> DecisionV {
    let ready = ready_nodes_of(workflow, state, policy);
    match first_from(workflow.nodes@, |n: Node| is_ready_gate(workflow, state, policy, n), 0) {
        Some(i) => drive_gate_spec(state, workflow.nodes@[i]),
        None => if ready.len() > 0 {
            let taken = if ready.len() <= capacity(policy) { ready } else { ready.take(capacity(policy)) };
            DecisionV::Execute(taken.map_values(|n: Node| (n.id@, 1u32)))
        } else {
            match first_from(workflow.nodes@, |n: Node| is_stuck(workflow, state, policy, n), 0) {
                None => DecisionV::Finish,
                Some(s) => {
                    let failed = first_from(workflow.nodes@, |n: Node| included(policy, n.id@)
                        && is_failed(state_of(state.nodes, n.id@)), 0);
                    if policy.on_failure == DefaultOnFailure::Continue && failed is Some {
                        let f = workflow.nodes@[failed.unwrap()];
                        let failure = match state_of(state.nodes, f.id@) {
                            Some(NodeState::Failed { failure }) => failure.message@,
                            _ => Seq::empty(),
                        };
                        DecisionV::Fail { reason: PauseReasonV::NodeFailed { node: f.id@, failure } }
                    } else {
                        let stuck = workflow.nodes@[s].id@;
                        DecisionV::Pause { reason: PauseReasonV::Blocked { node: stuck,
                            on: Set::new(|d: Seq<char>| board_dep(workflow, policy, stuck, d) && !finished(state, d)) } }
                    }
                },
            }
        },
    }
}

/// What the run does next, as the six questions answer it.
pub open spec fn decide_spec(workflow: Workflow, state: RunState, policy: Policy) -> DecisionV {
    match state.broken {
        Some(diagnostic) => DecisionV::Broken { diagnostic: diagnostic@ },
        None => match gate_step_spec(workflow, state, policy) {
            Some(d) => d,
            None => match waiting_step_spec(workflow, state, policy) {
                Some(d) => d,
                None => match answered_step_spec(workflow, state, policy) {
                    Some(d) => d,
                    None => match orphan_step_spec(workflow, state, policy) {
                        Some(d) => d,
                        None => match failure_from(workflow, state, policy, 0) {
                            Some(d) => d,
                            None => ready_batch_spec(workflow, state, policy),
                        },
                    },
                },
            },
        },
    }
}


// ---------------------------------------------------------------------
// The board, resolved once.

/// `deps` is what `dependencies_in_mode` answers for the policy's mode.
pub open spec fn deps_valid(workflow: Workflow, policy: Policy, deps: Seq<ModeDependencies>) -> bool {
    &&& forall|i: int| 0 <= i < deps.len() ==> included(policy, #[trigger] deps[i].node@)
            && node_ids(workflow.nodes@).contains(deps[i].node@)
    &&& forall|m: int| 0 <= m < workflow.nodes@.len() && included(policy, #[trigger] workflow.nodes@[m].id@)
            ==> exists|i: int| 0 <= i < deps.len() && #[trigger] deps[i].node@ == workflow.nodes@[m].id@
    &&& forall|i: int, d: Seq<char>| 0 <= i < deps.len() ==>
            (#[trigger] texts(deps[i].depends_on@).contains(d)
                <==> mode_dependency(workflow.nodes@, selection(policy), deps[i].node@, d))
}

/// Whether the policy's mode schedules `id`.
fn is_included(policy: &Policy, id: &String) -> (inc: bool)
    ensures
        inc == included(*policy, id@),
{
    match &policy.mode_nodes {
        None => true,
        Some(ids) => contains_text(ids, id),
    }
}

/// Whether the log derives `id` as finished.
fn is_finished_node(state: &RunState, id: &String) -> (done: bool)
    ensures
        done == finished(*state, id@),
{
    match state.nodes.state(id) {
        Some(NodeState::Finished { .. }) => true,
        _ => false,
    }
}

/// Whether the entry for `id`, if any, is what `board_dep` reads.
proof fn lemma_entry_deps(workflow: Workflow, policy: Policy, deps: Seq<ModeDependencies>, id: Seq<char>)
    requires
        deps_valid(workflow, policy, deps),
    ensures
        (forall|i: int| 0 <= i < deps.len() ==> #[trigger] deps[i].node@ != id)
            ==> forall|d: Seq<char>| !#[trigger] board_dep(workflow, policy, id, d),
        forall|i: int, d: Seq<char>| 0 <= i < deps.len() && deps[i].node@ == id ==>
            (#[trigger] texts(deps[i].depends_on@).contains(d) <==> board_dep(workflow, policy, id, d)),
{
    if forall|i: int| 0 <= i < deps.len() ==> #[trigger] deps[i].node@ != id {
        assert forall|d: Seq<char>| !#[trigger] board_dep(workflow, policy, id, d) by {
            if board_dep(workflow, policy, id, d) {
                let m = choose|m: int| 0 <= m < node_ids(workflow.nodes@).len() && node_ids(workflow.nodes@)[m] == id;
                assert(workflow.nodes@[m].id@ == id);
                assert(included(policy, workflow.nodes@[m].id@));
            }
        }
    }
}

/// Everything `id` waits on under the mode has finished.
#[verifier::loop_isolation(false)]
fn deps_satisfied_exec(workflow: &Workflow, state: &RunState, policy: &Policy, deps: &Vec<ModeDependencies>, id: &String) -> (ok: bool)
    requires
        deps_valid(*workflow, *policy, deps@),
    ensures
        ok == deps_satisfied(*workflow, *state, *policy, id@),
{
    proof { lemma_entry_deps(*workflow, *policy, deps@, id@); }
    match dependencies_of(deps, id) {
        None => true,
        Some(list) => {
            let ghost entry = choose|i: int| 0 <= i < deps@.len() && #[trigger] deps@[i].node@ == id@ && deps@[i].depends_on == *list;
            let mut j: usize = 0;
            while j < list.len()
                invariant
                    j <= list@.len(),
                    forall|k: int| 0 <= k < j ==> finished(*state, #[trigger] list@[k]@),
                decreases list@.len() - j,
            {
                if !is_finished_node(state, &list[j]) {
                    proof {
                        assert(texts(list@)[j as int] == list@[j as int]@);
                        assert(texts(deps@[entry].depends_on@).contains(list@[j as int]@));
                    }
                    return false;
                }
                j = j + 1;
            }
            proof {
                assert forall|d: Seq<char>| #[trigger] board_dep(*workflow, *policy, id@, d) implies finished(*state, d) by {
                    assert(texts(deps@[entry].depends_on@).contains(d));
                    let k = choose|k: int| 0 <= k < texts(list@).len() && texts(list@)[k] == d;
                    assert(list@[k]@ == d);
                }
            }
            true
        },
    }
}

/// Whether `node` names `id` as a re-route or gate target.
#[verifier::loop_isolation(false)]
fn targets_exec(node: &Node, id: &String) -> (t: bool)
    ensures
        t == targets(*node, id@),
{
    if let Some(of) = &node.on_failure {
        if crate::text::same_text(&of.goto, id) {
            return true;
        }
    }
    match &node.kind {
        NodeKind::Gate { on, .. } => {
            let mut r: usize = 0;
            while r < on.len()
                invariant
                    r <= on@.len(),
                    forall|k: int| 0 <= k < r ==> (#[trigger] on@[k]).target@ != id@,
                decreases on@.len() - r,
            {
                if crate::text::same_text(&on[r].target, id) {
                    assert(0 <= r < on@.len() && (on@[r as int]).target@ == id@);
                    return true;
                }
                r = r + 1;
            }
            false
        },
        _ => false,
    }
}

/// Only a re-route or a gate's `on:` may start `id`.
#[verifier::loop_isolation(false)]
fn reroute_only_exec(workflow: &Workflow, policy: &Policy, deps: &Vec<ModeDependencies>, id: &String) -> (only: bool)
    requires
        deps_valid(*workflow, *policy, deps@),
    ensures
        only == reroute_only(*workflow, *policy, id@),
{
    proof { lemma_entry_deps(*workflow, *policy, deps@, id@); }
    if let Some(list) = dependencies_of(deps, id) {
        if list.len() > 0 {
            proof {
                let entry = choose|i: int| 0 <= i < deps@.len() && #[trigger] deps@[i].node@ == id@ && deps@[i].depends_on == *list;
                assert(texts(deps@[entry].depends_on@)[0] == list@[0]@);
                assert(texts(deps@[entry].depends_on@).contains(list@[0]@));
                assert(board_dep(*workflow, *policy, id@, list@[0]@));
            }
            return false;
        } else {
            proof {
                let entry = choose|i: int| 0 <= i < deps@.len() && #[trigger] deps@[i].node@ == id@ && deps@[i].depends_on == *list;
                assert forall|d: Seq<char>| !#[trigger] board_dep(*workflow, *policy, id@, d) by {
                    assert(!texts(deps@[entry].depends_on@).contains(d));
                }
            }
        }
    }
    let mut i: usize = 0;
    while i < deps.len()
        invariant
            i <= deps@.len(),
            forall|k: int| 0 <= k < i ==> !#[trigger] texts(deps@[k].depends_on@).contains(id@),
        decreases deps@.len() - i,
    {
        if contains_text(&deps[i].depends_on, id) {
            proof {
                let node = deps@[i as int].node@;
                let m = choose|m: int| 0 <= m < node_ids(workflow.nodes@).len() && node_ids(workflow.nodes@)[m] == node;
                assert(workflow.nodes@[m].id@ == node);
                lemma_entry_deps(*workflow, *policy, deps@, node);
                assert(board_dep(*workflow, *policy, workflow.nodes@[m].id@, id@));
            }
            return false;
        }
        i = i + 1;
    }
    proof {
        assert forall|m: int| 0 <= m < workflow.nodes@.len() && included(*policy, #[trigger] workflow.nodes@[m].id@)
            implies !board_dep(*workflow, *policy, workflow.nodes@[m].id@, id@) by {
            let k = choose|k: int| 0 <= k < deps@.len() && #[trigger] deps@[k].node@ == workflow.nodes@[m].id@;
            lemma_entry_deps(*workflow, *policy, deps@, workflow.nodes@[m].id@);
            assert(!texts(deps@[k].depends_on@).contains(id@));
        }
    }
    let nodes = &workflow.nodes;
    let mut m: usize = 0;
    while m < nodes.len()
        invariant
            nodes == &workflow.nodes,
            m <= nodes@.len(),
            forall|k: int| 0 <= k < m ==> !(included(*policy, nodes@[k].id@) && #[trigger] targets(nodes@[k], id@)),
        decreases nodes@.len() - m,
    {
        if is_included(policy, &nodes[m].id) && targets_exec(&nodes[m], id) {
            return true;
        }
        m = m + 1;
    }
    false
}

/// The attempt number `id`'s next start carries.
pub(crate) fn next_attempt_exec(state: &RunState, id: &String) -> (attempt: u32)
    requires
        attempts_bounded(*state),
    ensures
        attempt == next_attempt(*state, id@),
{
    proof {
        crate::ledger::lemma_find_record(state.nodes.records@, id@, 0);
    }
    state.nodes.attempts(id) + 1
}

/// How a ready or re-opened gate is driven.
fn drive_gate(state: &RunState, node: &Node) -> (decision: Decision)
    ensures
        decision_view(decision) == drive_gate_spec(*state, *node),
{
    match state.gates.last_external_ref(&node.id) {
        Some(external_ref) => Decision::PollGate { node: node.id.clone(), external_ref: external_ref.clone() },
        None => if node.is_external_gate() {
            Decision::PublishGate { node: node.id.clone() }
        } else {
            Decision::ResolveInternalGate { node: node.id.clone() }
        },
    }
}


// ---------------------------------------------------------------------
// The six questions.

proof fn lemma_filter_step(s: Seq<Node>, pred: spec_fn(Node) -> bool, i: int)
    requires
        0 <= i < s.len(),
    ensures
        s.subrange(0, i + 1).filter(pred) == (if pred(s[i]) {
            s.subrange(0, i).filter(pred).push(s[i])
        } else {
            s.subrange(0, i).filter(pred)
        }),
{
    reveal(Seq::filter);
    assert(s.subrange(0, i + 1).drop_last() =~= s.subrange(0, i));
}

proof fn lemma_filter_empty(pred: spec_fn(Node) -> bool)
    ensures
        Seq::<Node>::empty().filter(pred) == Seq::<Node>::empty(),
{
    reveal(Seq::filter);
}

pub(crate) fn is_running_node(state: &RunState, id: &String) -> (running: bool)
    ensures
        running == is_running(state_of(state.nodes, id@)),
{
    match state.nodes.state(id) {
        Some(NodeState::Running) => true,
        _ => false,
    }
}

/// Question 1: a gate left running is re-driven.
#[verifier::loop_isolation(false)]
fn gate_step(workflow: &Workflow, state: &RunState, policy: &Policy) -> (decision: Option<Decision>)
    ensures
        opt_decision_view(decision) == gate_step_spec(*workflow, *state, *policy),
{
    let ghost pred = |n: Node| included(*policy, n.id@) && is_gate_kind(n.kind) && is_running(state_of(state.nodes, n.id@));
    let nodes = &workflow.nodes;
    let mut i: usize = 0;
    while i < nodes.len()
        invariant
            nodes == &workflow.nodes,
            i <= nodes@.len(),
            first_from(nodes@, pred, 0) == first_from(nodes@, pred, i as int),
        decreases nodes@.len() - i,
    {
        let node = &nodes[i];
        if is_included(policy, &node.id) && node.is_gate() && is_running_node(state, &node.id) {
            assert(pred(nodes@[i as int]));
            return Some(drive_gate(state, node));
        }
        i = i + 1;
    }
    None
}

/// Question 2: a node waiting on a person.
#[verifier::loop_isolation(false)]
fn waiting_step(workflow: &Workflow, state: &RunState, policy: &Policy) -> (decision: Option<Decision>)
    requires
        attempts_bounded(*state),
    ensures
        opt_decision_view(decision) == waiting_step_spec(*workflow, *state, *policy),
{
    let ghost pred = |n: Node| included(*policy, n.id@) && is_waiting(state_of(state.nodes, n.id@));
    let nodes = &workflow.nodes;
    let mut i: usize = 0;
    while i < nodes.len()
        invariant
            nodes == &workflow.nodes,
            i <= nodes@.len(),
            attempts_bounded(*state),
            first_from(nodes@, pred, 0) == first_from(nodes@, pred, i as int),
        decreases nodes@.len() - i,
    {
        let node = &nodes[i];
        if is_included(policy, &node.id) {
            if let Some(NodeState::Waiting { external_ref }) = state.nodes.state(&node.id) {
                assert(pred(nodes@[i as int]));
                if node.is_gate() {
                    return Some(match external_ref {
                        Some(r) => Decision::PollGate { node: node.id.clone(), external_ref: r.clone() },
                        None => if node.is_external_gate() {
                            Decision::PublishGate { node: node.id.clone() }
                        } else {
                            Decision::ResolveInternalGate { node: node.id.clone() }
                        },
                    });
                }
                if node.asks() {
                    return Some(Decision::AskQuestions { node: node.id.clone() });
                }
                let attempt = next_attempt_exec(state, &node.id);
                let mut batch: Vec<NodeAttempt> = Vec::new();
                batch.push(NodeAttempt { node: node.id.clone(), attempt });
                proof {
                    assert(batch_view(batch@) =~= seq![(node.id@, attempt)]);
                }
                return Some(Decision::Execute(batch));
            }
        }
        i = i + 1;
    }
    None
}

/// Question 3: an answered node owes its terminal.
#[verifier::loop_isolation(false)]
fn answered_step(workflow: &Workflow, state: &RunState, policy: &Policy) -> (decision: Option<Decision>)
    ensures
        opt_decision_view(decision) == answered_step_spec(*workflow, *state, *policy),
{
    let ghost pred = |n: Node| included(*policy, n.id@) && answered_unfinished_spec(*state, n.id@);
    let nodes = &workflow.nodes;
    let mut i: usize = 0;
    while i < nodes.len()
        invariant
            nodes == &workflow.nodes,
            i <= nodes@.len(),
            first_from(nodes@, pred, 0) == first_from(nodes@, pred, i as int),
        decreases nodes@.len() - i,
    {
        let node = &nodes[i];
        if is_included(policy, &node.id) && state.answered_unfinished(&node.id) {
            assert(pred(nodes@[i as int]));
            return Some(Decision::FinishAnswered { node: node.id.clone() });
        }
        i = i + 1;
    }
    None
}

/// Question 4: orphans a crash left running.
#[verifier::loop_isolation(false)]
fn orphan_step(workflow: &Workflow, state: &RunState, policy: &Policy) -> (decision: Option<Decision>)
    requires
        attempts_bounded(*state),
    ensures
        opt_decision_view(decision) == orphan_step_spec(*workflow, *state, *policy),
{
    let ghost orphan = |n: Node| is_orphan(*state, *policy, n);
    let ghost uncertain_pred = |n: Node| is_uncertain(*policy, n);
    let ghost attempt_of = |n: Node| (n.id@, next_attempt(*state, n.id@));
    let nodes = &workflow.nodes;
    let mut batch: Vec<NodeAttempt> = Vec::new();
    let mut uncertain: Vec<String> = Vec::new();
    let mut i: usize = 0;
    proof {
        lemma_filter_empty(orphan);
        lemma_filter_empty(uncertain_pred);
        assert(nodes@.subrange(0, 0) =~= Seq::<Node>::empty());
        assert(batch_view(batch@) =~= Seq::<Node>::empty().map_values(attempt_of));
        assert(texts(uncertain@) =~= node_ids(Seq::<Node>::empty()));
    }
    while i < nodes.len()
        invariant
            nodes == &workflow.nodes,
            i <= nodes@.len(),
            attempts_bounded(*state),
            batch_view(batch@) == nodes@.subrange(0, i as int).filter(orphan).map_values(attempt_of),
            texts(uncertain@) == node_ids(nodes@.subrange(0, i as int).filter(orphan).filter(uncertain_pred)),
        decreases nodes@.len() - i,
    {
        let node = &nodes[i];
        let ghost before = nodes@.subrange(0, i as int).filter(orphan);
        proof {
            lemma_filter_step(nodes@, orphan, i as int);
        }
        if is_included(policy, &node.id) && !node.is_gate() && is_running_node(state, &node.id) {
            let attempt = next_attempt_exec(state, &node.id);
            let ghost bv = batch@;
            batch.push(NodeAttempt { node: node.id.clone(), attempt });
            let own = match node.on_interrupt {
                Some(own) => own,
                None => policy.on_interrupt,
            };
            let ghost uv = uncertain@;
            proof {
                assert(orphan(nodes@[i as int]));
                assert(batch_view(batch@) =~= batch_view(bv).push(attempt_of(nodes@[i as int])));
                assert(before.push(nodes@[i as int]).map_values(attempt_of) =~= before.map_values(attempt_of).push(attempt_of(nodes@[i as int])));
                assert(before.push(nodes@[i as int]).drop_last() =~= before);
                reveal(Seq::filter);
            }
            if matches!(own, OnInterrupt::FailIfUncertain) {
                uncertain.push(node.id.clone());
                proof {
                    assert(uncertain_pred(nodes@[i as int]));
                    assert(texts(uncertain@) =~= texts(uv).push(node.id@));
                    assert(node_ids(before.filter(uncertain_pred).push(nodes@[i as int])) =~= node_ids(before.filter(uncertain_pred)).push(node.id@));
                }
            } else {
                proof {
                    assert(!uncertain_pred(nodes@[i as int]));
                }
            }
        } else {
            proof {
                assert(!orphan(nodes@[i as int]));
            }
        }
        i = i + 1;
    }
    proof {
        assert(nodes@.subrange(0, nodes@.len() as int) =~= nodes@);
    }
    if batch.len() == 0 {
        proof {
            assert(orphans(*workflow, *state, *policy).map_values(attempt_of).len() == 0);
        }
        return None;
    }
    if uncertain.len() > 0 {
        return Some(Decision::Pause { reason: PauseReason::UncertainOrphans(uncertain) });
    }
    proof {
        assert(orphans(*workflow, *state, *policy).filter(uncertain_pred).len() == 0);
    }
    Some(Decision::Execute(batch))
}


/// A failure with no re-route after it: its own `on_failure` re-routes or
/// escalates; a node without one leaves the decision to the policy, and
/// `continue` answers nothing.
fn unrerouted(policy: &Policy, node: &Node, failure: &Failure, reroutes: u32) -> (decision: Option<Decision>)
    ensures
        opt_decision_view(decision) == unrerouted_spec(*policy, *node, *failure, reroutes),
{
    if let Some(on_failure) = &node.on_failure {
        if reroutes < on_failure.max_reroutes {
            return Some(Decision::Reroute {
                from: node.id.clone(),
                to: on_failure.goto.clone(),
                attempt: reroutes + 1,
                max_reroutes: on_failure.max_reroutes,
                cause: failure.duplicate(),
            });
        }
        return Some(Decision::GateExhaustedReroutes {
            node: node.id.clone(),
            goto: on_failure.goto.clone(),
            max_reroutes: on_failure.max_reroutes,
            cause: failure.duplicate(),
        });
    }
    let reason = PauseReason::NodeFailed { node: node.id.clone(), failure: failure.duplicate() };
    match policy.on_failure {
        DefaultOnFailure::Pause => Some(Decision::Pause { reason }),
        DefaultOnFailure::Abort => Some(Decision::Fail { reason }),
        DefaultOnFailure::Continue => None,
    }
}

/// A failure already re-routed to `to`: what happens next depends on where
/// that correction got to.
fn after_reroute(state: &RunState, node: &Node, to: &String, reroute_seq: u64) -> (decision: Option<Decision>)
    requires
        attempts_bounded(*state),
    ensures
        opt_decision_view(decision) == after_reroute_spec(*state, *node, to@, reroute_seq),
{
    let (finished_at, failed_at) = match state.nodes.get(to) {
        Some(record) => (record.last_finished, record.last_failed),
        None => (None, None),
    };
    if let Some(seq) = finished_at {
        if seq > reroute_seq {
            if node.is_gate() {
                return Some(drive_gate(state, node));
            }
            let mut batch: Vec<NodeAttempt> = Vec::new();
            batch.push(NodeAttempt { node: node.id.clone(), attempt: next_attempt_exec(state, &node.id) });
            proof { assert(batch_view(batch@) =~= seq![(node.id@, next_attempt(*state, node.id@))]); }
            return Some(Decision::Execute(batch));
        }
    }
    if let Some(seq) = failed_at {
        if seq > reroute_seq {
            return None;
        }
    }
    let mut batch: Vec<NodeAttempt> = Vec::new();
    batch.push(NodeAttempt { node: to.clone(), attempt: next_attempt_exec(state, to) });
    proof { assert(batch_view(batch@) =~= seq![(to@, next_attempt(*state, to@))]); }
    Some(Decision::Execute(batch))
}

/// Question 5: failures, one at a time, in declaration order.
#[verifier::loop_isolation(false)]
fn failure_step(workflow: &Workflow, state: &RunState, policy: &Policy) -> (decision: Option<Decision>)
    requires
        attempts_bounded(*state),
    ensures
        opt_decision_view(decision) == failure_from(*workflow, *state, *policy, 0),
{
    let nodes = &workflow.nodes;
    let mut i: usize = 0;
    while i < nodes.len()
        invariant
            i <= nodes@.len(),
            failure_from(*workflow, *state, *policy, 0) == failure_from(*workflow, *state, *policy, i as int),
        decreases nodes@.len() - i,
    {
        let node = &nodes[i];
        if is_included(policy, &node.id) {
            if let Some(NodeState::Failed { failure }) = state.nodes.state(&node.id) {
                let record = state.nodes.get(&node.id).unwrap();
                let mut rerouted = false;
                let mut answer: Option<Decision> = None;
                if let Some(reroute) = &record.last_reroute {
                    let after_failure = match record.last_failed {
                        Some(failed) => reroute.seq > failed,
                        None => true,
                    };
                    if after_failure {
                        rerouted = true;
                        answer = after_reroute(state, node, &reroute.to, reroute.seq);
                    }
                }
                if !rerouted {
                    answer = unrerouted(policy, node, failure, record.reroutes);
                }
                proof {
                    assert(opt_decision_view(answer) == failure_at(*workflow, *state, *policy, i as int));
                }
                if answer.is_some() {
                    return answer;
                }
            }
        }
        i = i + 1;
    }
    None
}

/// At most `cap` of `s`, from the front.
pub open spec fn truncate(s: Seq<Node>, cap: int) -> Seq<Node> {
    if s.len() <= cap { s } else { s.take(cap) }
}

proof fn lemma_truncate_push(s: Seq<Node>, x: Node, cap: int)
    requires
        cap >= 1,
    ensures
        truncate(s.push(x), cap) == (if s.len() < cap { truncate(s, cap).push(x) } else { truncate(s, cap) }),
{
    if s.len() >= cap {
        assert(s.push(x).take(cap) =~= s.take(cap));
        if s.len() == cap {
            assert(s.take(cap) =~= s);
        }
    }
}

/// Question 6: what is ready now, and what it means when nothing is.
#[verifier::loop_isolation(false)]
fn ready_batch(workflow: &Workflow, state: &RunState, policy: &Policy, deps: &Vec<ModeDependencies>) -> (decision: Decision)
    requires
        deps_valid(*workflow, *policy, deps@),
    ensures
        decision_view(decision) == ready_batch_spec(*workflow, *state, *policy),
{
    let nodes = &workflow.nodes;
    let ghost gate_pred = |n: Node| is_ready_gate(*workflow, *state, *policy, n);
    let ghost node_pred = |n: Node| is_ready_node(*workflow, *state, *policy, n);
    let ghost to_attempt = |n: Node| (n.id@, 1u32);

    // A ready gate is never batched with ordinary nodes.
    let mut i: usize = 0;
    while i < nodes.len()
        invariant
            i <= nodes@.len(),
            first_from(nodes@, gate_pred, 0) == first_from(nodes@, gate_pred, i as int),
        decreases nodes@.len() - i,
    {
        let node = &nodes[i];
        if is_included(policy, &node.id) && node.is_gate() && !state.nodes.has_state(&node.id)
            && !reroute_only_exec(workflow, policy, deps, &node.id)
            && deps_satisfied_exec(workflow, state, policy, deps, &node.id) {
            assert(gate_pred(nodes@[i as int]));
            return drive_gate(state, node);
        }
        i = i + 1;
    }

    // Fresh nodes whose dependencies are all finished, up to capacity.
    let capacity: usize = if policy.max_parallel_nodes == 0 { 1 } else { policy.max_parallel_nodes as usize };
    let mut batch: Vec<NodeAttempt> = Vec::new();
    let mut i: usize = 0;
    proof {
        lemma_filter_empty(node_pred);
        assert(nodes@.subrange(0, 0) =~= Seq::<Node>::empty());
        assert(batch_view(batch@) =~= truncate(Seq::<Node>::empty(), capacity as int).map_values(to_attempt));
    }
    while i < nodes.len()
        invariant
            i <= nodes@.len(),
            capacity as int == crate::schedule::capacity(*policy),
            batch_view(batch@) == truncate(nodes@.subrange(0, i as int).filter(node_pred), capacity as int).map_values(to_attempt),
            batch@.len() == truncate(nodes@.subrange(0, i as int).filter(node_pred), capacity as int).len(),
        decreases nodes@.len() - i,
    {
        let node = &nodes[i];
        let ghost before = nodes@.subrange(0, i as int).filter(node_pred);
        proof {
            lemma_filter_step(nodes@, node_pred, i as int);
            lemma_truncate_push(before, nodes@[i as int], capacity as int);
        }
        if batch.len() < capacity {
            if is_included(policy, &node.id) && !node.is_gate() && !state.nodes.has_state(&node.id)
                && !reroute_only_exec(workflow, policy, deps, &node.id)
                && deps_satisfied_exec(workflow, state, policy, deps, &node.id) {
                let ghost bv = batch@;
                batch.push(NodeAttempt { node: node.id.clone(), attempt: 1 });
                proof {
                    assert(node_pred(nodes@[i as int]));
                    assert(batch_view(batch@) =~= batch_view(bv).push(to_attempt(nodes@[i as int])));
                    assert(truncate(before, capacity as int).push(nodes@[i as int]).map_values(to_attempt)
                        =~= truncate(before, capacity as int).map_values(to_attempt).push(to_attempt(nodes@[i as int])));
                }
            } else {
                proof { assert(!node_pred(nodes@[i as int])); }
            }
        }
        i = i + 1;
    }
    proof {
        assert(nodes@.subrange(0, nodes@.len() as int) =~= nodes@);
    }
    if batch.len() > 0 {
        return Decision::Execute(batch);
    }

    nothing_runnable(workflow, state, policy, deps)
}

/// The first included node that keeps the run from finishing.
#[verifier::loop_isolation(false)]
fn first_stuck(workflow: &Workflow, state: &RunState, policy: &Policy, deps: &Vec<ModeDependencies>) -> (stuck: Option<usize>)
    requires
        deps_valid(*workflow, *policy, deps@),
    ensures
        stuck matches Some(s) ==> s < workflow.nodes@.len()
            && first_from(workflow.nodes@, |n: Node| is_stuck(*workflow, *state, *policy, n), 0) == Some(s as int),
        stuck is None ==> first_from(workflow.nodes@, |n: Node| is_stuck(*workflow, *state, *policy, n), 0) is None,
{
    let nodes = &workflow.nodes;
    let ghost stuck_pred = |n: Node| is_stuck(*workflow, *state, *policy, n);
    let mut s: usize = 0;
    while s < nodes.len()
        invariant
            s <= nodes@.len(),
            first_from(nodes@, stuck_pred, 0) == first_from(nodes@, stuck_pred, s as int),
        decreases nodes@.len() - s,
    {
        let node = &nodes[s];
        if is_included(policy, &node.id) && !is_finished_node(state, &node.id)
            && !(reroute_only_exec(workflow, policy, deps, &node.id) && !state.nodes.has_state(&node.id)) {
            assert(stuck_pred(nodes@[s as int]));
            return Some(s);
        }
        s = s + 1;
    }
    None
}

/// Nothing is runnable: either every node this mode includes finished, or
/// something is stuck behind a failure this run left unresolved.
#[verifier::loop_isolation(false)]
fn nothing_runnable(workflow: &Workflow, state: &RunState, policy: &Policy, deps: &Vec<ModeDependencies>) -> (decision: Decision)
    requires
        deps_valid(*workflow, *policy, deps@),
        ready_nodes_of(*workflow, *state, *policy).len() == 0,
        first_from(workflow.nodes@, |n: Node| is_ready_gate(*workflow, *state, *policy, n), 0) is None,
    ensures
        decision_view(decision) == ready_batch_spec(*workflow, *state, *policy),
{
    let nodes = &workflow.nodes;
    let ghost stuck_pred = |n: Node| is_stuck(*workflow, *state, *policy, n);
    let ghost failed_pred = |n: Node| included(*policy, n.id@) && is_failed(state_of(state.nodes, n.id@));
    let s = match first_stuck(workflow, state, policy, deps) {
        Some(s) => s,
        None => return Decision::Finish,
    };
    if matches!(policy.on_failure, DefaultOnFailure::Continue) {
        let mut f: usize = 0;
        while f < nodes.len()
            invariant
                f <= nodes@.len(),
                first_from(nodes@, failed_pred, 0) == first_from(nodes@, failed_pred, f as int),
            decreases nodes@.len() - f,
        {
            let node = &nodes[f];
            if is_included(policy, &node.id) {
                if let Some(NodeState::Failed { failure }) = state.nodes.state(&node.id) {
                    assert(failed_pred(nodes@[f as int]));
                    return Decision::Fail {
                        reason: PauseReason::NodeFailed { node: node.id.clone(), failure: failure.duplicate() },
                    };
                }
            }
            f = f + 1;
        }
    }
    let stuck = &nodes[s].id;
    let mut on: Vec<String> = Vec::new();
    proof { lemma_entry_deps(*workflow, *policy, deps@, stuck@); }
    match dependencies_of(deps, stuck) {
        None => {
            proof {
                assert(texts(on@).to_set() =~= Set::new(|d: Seq<char>| board_dep(*workflow, *policy, stuck@, d) && !finished(*state, d)));
            }
        },
        Some(list) => {
            let ghost entry = choose|i: int| 0 <= i < deps@.len() && #[trigger] deps@[i].node@ == stuck@ && deps@[i].depends_on == *list;
            let mut j: usize = 0;
            while j < list.len()
                invariant
                    j <= list@.len(),
                    forall|d: Seq<char>| #[trigger] texts(on@).contains(d)
                        <==> (exists|k: int| 0 <= k < j && #[trigger] list@[k]@ == d && !finished(*state, d)),
                decreases list@.len() - j,
            {
                let ghost ov = on@;
                if !is_finished_node(state, &list[j]) {
                    on.push(list[j].clone());
                    proof {
                        assert(texts(on@) =~= texts(ov).push(list@[j as int]@));
                        assert forall|d: Seq<char>| #[trigger] texts(on@).contains(d)
                            <==> (exists|k: int| 0 <= k < j + 1 && #[trigger] list@[k]@ == d && !finished(*state, d)) by {
                            if texts(on@).contains(d) && d != list@[j as int]@ {
                                assert(texts(ov).contains(d));
                            }
                            if exists|k: int| 0 <= k < j + 1 && #[trigger] list@[k]@ == d && !finished(*state, d) {
                                let k = choose|k: int| 0 <= k < j + 1 && #[trigger] list@[k]@ == d && !finished(*state, d);
                                if k < j {
                                    assert(texts(ov).contains(d));
                                    let p = choose|p: int| 0 <= p < texts(ov).len() && texts(ov)[p] == d;
                                    assert(texts(on@)[p] == d);
                                } else {
                                    assert(texts(on@)[ov.len() as int] == d);
                                }
                            }
                        }
                    }
                } else {
                    proof {
                        assert forall|d: Seq<char>| #[trigger] texts(on@).contains(d)
                            <==> (exists|k: int| 0 <= k < j + 1 && #[trigger] list@[k]@ == d && !finished(*state, d)) by {
                            if exists|k: int| 0 <= k < j + 1 && #[trigger] list@[k]@ == d && !finished(*state, d) {
                                let k = choose|k: int| 0 <= k < j + 1 && #[trigger] list@[k]@ == d && !finished(*state, d);
                                assert(k < j);
                            }
                        }
                    }
                }
                j = j + 1;
            }
            proof {
                assert(texts(on@).to_set() =~= Set::new(|d: Seq<char>| board_dep(*workflow, *policy, stuck@, d) && !finished(*state, d))) by {
                    assert forall|d: Seq<char>| texts(on@).to_set().contains(d)
                        <==> (board_dep(*workflow, *policy, stuck@, d) && !finished(*state, d)) by {
                        if texts(on@).contains(d) {
                            let k = choose|k: int| 0 <= k < list@.len() && #[trigger] list@[k]@ == d && !finished(*state, d);
                            assert(texts(list@)[k] == d);
                            assert(texts(deps@[entry].depends_on@).contains(d));
                        }
                        if board_dep(*workflow, *policy, stuck@, d) && !finished(*state, d) {
                            assert(texts(deps@[entry].depends_on@).contains(d));
                            let k = choose|k: int| 0 <= k < texts(list@).len() && texts(list@)[k] == d;
                            assert(list@[k]@ == d);
                        }
                    }
                }
            }
        },
    }
    Decision::Pause { reason: PauseReason::Blocked { node: stuck.clone(), on } }
}

/// What the run does next. Pure: the same state and policy always answer
/// the same thing, which is what lets a resume re-ask the question a
/// crashed invocation was in the middle of.
pub fn decide(workflow: &Workflow, state: &RunState, policy: &Policy) -> (decision: Decision)
    requires
        attempts_bounded(*state),
    ensures
        decision_view(decision) == decide_spec(*workflow, *state, *policy),
{
    if let Some(diagnostic) = &state.broken {
        return Decision::Broken { diagnostic: diagnostic.clone() };
    }
    if let Some(d) = gate_step(workflow, state, policy) {
        return d;
    }
    if let Some(d) = waiting_step(workflow, state, policy) {
        return d;
    }
    if let Some(d) = answered_step(workflow, state, policy) {
        return d;
    }
    if let Some(d) = orphan_step(workflow, state, policy) {
        return d;
    }
    if let Some(d) = failure_step(workflow, state, policy) {
        return d;
    }
    let selected = policy.mode_nodes.as_ref();
    proof {
        assert(opt_texts(selected) == selection(*policy));
    }
    let deps = dependencies_in_mode(workflow, selected);
    ready_batch(workflow, state, policy, &deps)
}


// ---------------------------------------------------------------------
// What every decision keeps.

proof fn lemma_first_from_none(nodes: Seq<Node>, pred: spec_fn(Node) -> bool, from: int)
    requires
        0 <= from,
        first_from(nodes, pred, from) is None,
    ensures
        forall|i: int| from <= i < nodes.len() ==> !pred(#[trigger] nodes[i]),
    decreases nodes.len() - from,
{
    if from < nodes.len() {
        lemma_first_from_none(nodes, pred, from + 1);
    }
}

proof fn lemma_first_from_some(nodes: Seq<Node>, pred: spec_fn(Node) -> bool, from: int)
    requires
        0 <= from,
    ensures
        first_from(nodes, pred, from) matches Some(i) ==> from <= i < nodes.len() && pred(nodes[i])
            && forall|j: int| from <= j < i ==> !pred(#[trigger] nodes[j]),
    decreases nodes.len() - from,
{
    if from < nodes.len() {
        lemma_first_from_some(nodes, pred, from + 1);
    }
}

/// A batch of `Execute` entries is never empty: every answer that starts
/// nodes starts at least one.
pub proof fn law_execute_is_never_empty(workflow: Workflow, state: RunState, policy: Policy)
    ensures
        decide_spec(workflow, state, policy) matches DecisionV::Execute(batch) ==> batch.len() > 0,
{
    let orphaned = orphans(workflow, state, policy);
    let ready = ready_nodes_of(workflow, state, policy);
    if ready.len() > 0 {
        let cap = capacity(policy);
        if ready.len() > cap {
            assert(ready.take(cap).len() == cap);
        }
    }
    assert(failure_from(workflow, state, policy, 0) matches Some(DecisionV::Execute(b)) ==> b.len() > 0) by {
        lemma_failure_execute_nonempty(workflow, state, policy, 0);
    }
}

proof fn lemma_failure_execute_nonempty(workflow: Workflow, state: RunState, policy: Policy, from: int)
    ensures
        failure_from(workflow, state, policy, from) matches Some(DecisionV::Execute(b)) ==> b.len() > 0,
    decreases workflow.nodes@.len() - from,
{
    if 0 <= from < workflow.nodes@.len() {
        lemma_failure_execute_nonempty(workflow, state, policy, from + 1);
    }
}

/// A run finishes only when every node its mode includes has finished,
/// save a re-route destination nothing ever needed.
pub proof fn law_finish_means_every_included_node_is_done(workflow: Workflow, state: RunState, policy: Policy)
    ensures
        decide_spec(workflow, state, policy) matches DecisionV::Finish ==>
            forall|i: int| 0 <= i < workflow.nodes@.len() && included(policy, #[trigger] workflow.nodes@[i].id@) ==>
                finished(state, workflow.nodes@[i].id@)
                || (reroute_only(workflow, policy, workflow.nodes@[i].id@) && !has_state(state, workflow.nodes@[i].id@)),
{
    let stuck_pred = |n: Node| is_stuck(workflow, state, policy, n);
    if decide_spec(workflow, state, policy) is Finish {
        assert(first_from(workflow.nodes@, stuck_pred, 0) is None) by {
            lemma_failure_not_finish(workflow, state, policy, 0);
        }
        lemma_first_from_none(workflow.nodes@, stuck_pred, 0);
        assert forall|i: int| 0 <= i < workflow.nodes@.len() && included(policy, #[trigger] workflow.nodes@[i].id@) implies
            finished(state, workflow.nodes@[i].id@)
            || (reroute_only(workflow, policy, workflow.nodes@[i].id@) && !has_state(state, workflow.nodes@[i].id@)) by {
            assert(!stuck_pred(workflow.nodes@[i]));
        }
    }
}

proof fn lemma_failure_not_finish(workflow: Workflow, state: RunState, policy: Policy, from: int)
    ensures
        !(failure_from(workflow, state, policy, from) matches Some(DecisionV::Finish)),
    decreases workflow.nodes@.len() - from,
{
    if 0 <= from < workflow.nodes@.len() {
        lemma_failure_not_finish(workflow, state, policy, from + 1);
    }
}

/// A log that stopped making sense is reported as broken, whatever else
/// it holds.
pub proof fn law_a_broken_log_is_reported(workflow: Workflow, state: RunState, policy: Policy)
    ensures
        state.broken matches Some(diagnostic) ==>
            decide_spec(workflow, state, policy) == (DecisionV::Broken { diagnostic: diagnostic@ }),
{
}

/// A fresh batch starts only nodes whose dependencies all finished, each
/// on its first attempt, never more than the policy's capacity.
pub proof fn law_a_fresh_batch_is_ready(workflow: Workflow, state: RunState, policy: Policy)
    ensures
        ({
            let ready = ready_nodes_of(workflow, state, policy);
            let taken = if ready.len() <= capacity(policy) { ready } else { ready.take(capacity(policy)) };
            &&& taken.len() <= capacity(policy)
            &&& forall|i: int| 0 <= i < taken.len() ==> deps_satisfied(workflow, state, policy, (#[trigger] taken[i]).id@)
                    && !has_state(state, taken[i].id@) && included(policy, taken[i].id@)
        }),
{
    let pred = |n: Node| is_ready_node(workflow, state, policy, n);
    let ready = ready_nodes_of(workflow, state, policy);
    assert forall|i: int| 0 <= i < ready.len() implies pred(#[trigger] ready[i]) by {
        workflow.nodes@.lemma_filter_pred(pred, i);
    }
}


/// On a resume, a node a crash left running whose `on_interrupt` (its
/// own, else the run's) is `fail_if_uncertain` is never guessed about:
/// once no gate, wait or answer decides first, the run pauses, naming it
/// among the uncertain orphans, and names no node that is not one.
pub proof fn law_an_uncertain_orphan_pauses_the_run(workflow: Workflow, state: RunState, policy: Policy, k: int)
    requires
        state.broken is None,
        gate_step_spec(workflow, state, policy) is None,
        waiting_step_spec(workflow, state, policy) is None,
        answered_step_spec(workflow, state, policy) is None,
        0 <= k < workflow.nodes@.len(),
        included(policy, workflow.nodes@[k].id@),
        !is_gate_kind(workflow.nodes@[k].kind),
        is_running(state_of(state.nodes, workflow.nodes@[k].id@)),
        (match workflow.nodes@[k].on_interrupt {
            Some(own) => own,
            None => policy.on_interrupt,
        }) == OnInterrupt::FailIfUncertain,
    ensures
        decide_spec(workflow, state, policy) matches DecisionV::Pause { reason: PauseReasonV::UncertainOrphans(ids) }
            && ids.contains(workflow.nodes@[k].id@)
            && forall|j: int| #![trigger ids[j]] 0 <= j < ids.len() ==> exists|i: int| 0 <= i < workflow.nodes@.len()
                && (#[trigger] workflow.nodes@[i]).id@ == ids[j]
                && included(policy, workflow.nodes@[i].id@)
                && !is_gate_kind(workflow.nodes@[i].kind)
                && is_running(state_of(state.nodes, workflow.nodes@[i].id@))
                && (match workflow.nodes@[i].on_interrupt {
                    Some(own) => own,
                    None => policy.on_interrupt,
                }) == OnInterrupt::FailIfUncertain,
{
    broadcast use vstd::seq_lib::group_filter_ensures;
    let node = workflow.nodes@[k];
    let po = |n: Node| is_orphan(state, policy, n);
    let pu = |n: Node| is_uncertain(policy, n);
    let orphaned = workflow.nodes@.filter(po);
    assert(orphaned == orphans(workflow, state, policy));
    workflow.nodes@.lemma_filter_contains(po, k);
    let o = choose|o: int| 0 <= o < orphaned.len() && orphaned[o] == node;
    orphaned.lemma_filter_contains(pu, o);
    let uncertain = orphaned.filter(pu);
    let u = choose|u: int| 0 <= u < uncertain.len() && uncertain[u] == node;
    let ids = node_ids(uncertain);
    assert(ids[u] == node.id@);
    assert(decide_spec(workflow, state, policy) == DecisionV::Pause { reason: PauseReasonV::UncertainOrphans(ids) });
    assert forall|j: int| #![trigger ids[j]] 0 <= j < ids.len() implies exists|i: int| 0 <= i < workflow.nodes@.len()
        && (#[trigger] workflow.nodes@[i]).id@ == ids[j]
        && included(policy, workflow.nodes@[i].id@)
        && !is_gate_kind(workflow.nodes@[i].kind)
        && is_running(state_of(state.nodes, workflow.nodes@[i].id@))
        && (match workflow.nodes@[i].on_interrupt {
            Some(own) => own,
            None => policy.on_interrupt,
        }) == OnInterrupt::FailIfUncertain by {
        let m = uncertain[j];
        orphaned.lemma_filter_pred(pu, j);
        orphaned.lemma_filter_contains_rev(pu, m);
        let oi = choose|oi: int| 0 <= oi < orphaned.len() && orphaned[oi] == m;
        workflow.nodes@.lemma_filter_pred(po, oi);
        workflow.nodes@.lemma_filter_contains_rev(po, m);
        let i = choose|i: int| 0 <= i < workflow.nodes@.len() && workflow.nodes@[i] == m;
        assert(workflow.nodes@[i].id@ == ids[j]);
    }
}

/// A failed node re-routed to its corrective node re-runs once that node
/// has finished after the re-route: the failed node (never the corrective
/// one) is the whole next batch, on its next attempt. This holds for the
/// first such failure in declaration order, once no earlier question and
/// no earlier failure decides.
pub proof fn law_a_corrected_node_runs_again(
    workflow: Workflow,
    state: RunState,
    policy: Policy,
    k: int,
    record: NodeRecord,
    reroute: Reroute,
    corrective: NodeRecord,
    finished_at: u64,
)
    requires
        state.broken is None,
        gate_step_spec(workflow, state, policy) is None,
        waiting_step_spec(workflow, state, policy) is None,
        answered_step_spec(workflow, state, policy) is None,
        orphan_step_spec(workflow, state, policy) is None,
        0 <= k < workflow.nodes@.len(),
        forall|i: int| 0 <= i < k ==> failure_at(workflow, state, policy, i) is None,
        included(policy, workflow.nodes@[k].id@),
        !is_gate_kind(workflow.nodes@[k].kind),
        record_of(state.nodes, workflow.nodes@[k].id@) == Some(record),
        record.state matches Some(NodeState::Failed { .. }),
        record.last_reroute == Some(reroute),
        record.last_failed matches Some(failed) ==> reroute.seq > failed,
        record_of(state.nodes, reroute.to@) == Some(corrective),
        corrective.last_finished == Some(finished_at),
        finished_at > reroute.seq,
    ensures
        decide_spec(workflow, state, policy)
            == DecisionV::Execute(seq![(workflow.nodes@[k].id@, (record.attempts + 1) as u32)]),
{
    lemma_failure_from_first(workflow, state, policy, 0, k);
}

proof fn lemma_failure_from_first(workflow: Workflow, state: RunState, policy: Policy, from: int, k: int)
    requires
        0 <= from <= k < workflow.nodes@.len(),
        forall|i: int| from <= i < k ==> failure_at(workflow, state, policy, i) is None,
    ensures
        failure_from(workflow, state, policy, from) == failure_from(workflow, state, policy, k),
    decreases k - from,
{
    if from < k {
        lemma_failure_from_first(workflow, state, policy, from + 1, k);
    }
}

// ---------------------------------------------------------------------
// Around the decision.

/// The mode declared immediately after `mode_name` — the only direction
/// promotion ever moves. `None` when no modes are declared, the name is
/// not one of them, or it is the last one.
pub open spec fn next_mode_spec(workflow: Workflow, mode_name: Seq<char>) -> Option<Seq<char>> {
    match workflow.modes {
        None => None,
        Some(modes) => match crate::modes::first_mode_index(modes@, mode_name, 0) {
            Some(i) => if i + 1 < modes@.len() { Some(modes@[i + 1].name@) } else { None },
            None => None,
        },
    }
}

pub fn next_mode_after(workflow: &Workflow, mode_name: &String) -> (next: Option<String>)
    ensures
        next matches Some(name) ==> next_mode_spec(*workflow, mode_name@) == Some(name@),
        next is None ==> next_mode_spec(*workflow, mode_name@) is None,
{
    let modes = match &workflow.modes {
        Some(modes) => modes,
        None => return None,
    };
    match crate::modes::find_mode(modes, mode_name) {
        Some(i) => if i < modes.len() - 1 { Some(modes[i + 1].name.clone()) } else { None },
        None => None,
    }
}

/// An orphan and the `on_interrupt` it resolves to.
#[derive(Debug, Clone, PartialEq, Eq)]
pub struct ResumePolicy {
    pub node: String,
    pub on_interrupt: OnInterrupt,
}

/// The orphans a resume finds among `nodes` — left running with no
/// terminal, gates excepted — each with the `on_interrupt` it resolves to:
/// its own declaration, or `default_on_interrupt`.
#[verifier::loop_isolation(false)]
pub fn resume_policies(nodes: &Vec<Node>, state: &RunState, default_on_interrupt: OnInterrupt) -> (policies: Vec<ResumePolicy>)
    ensures
        policies@.map_values(|p: ResumePolicy| (p.node@, p.on_interrupt)) == nodes@.filter(
            |n: Node| !is_gate_kind(n.kind) && is_running(state_of(state.nodes, n.id@)),
        ).map_values(|n: Node| (n.id@, match n.on_interrupt { Some(own) => own, None => default_on_interrupt })),
{
    let ghost pred = |n: Node| !is_gate_kind(n.kind) && is_running(state_of(state.nodes, n.id@));
    let ghost view_of = |n: Node| (n.id@, match n.on_interrupt { Some(own) => own, None => default_on_interrupt });
    let ghost pview = |p: ResumePolicy| (p.node@, p.on_interrupt);
    let mut policies: Vec<ResumePolicy> = Vec::new();
    let mut i: usize = 0;
    proof {
        lemma_filter_empty(pred);
        assert(nodes@.subrange(0, 0) =~= Seq::<Node>::empty());
        assert(policies@.map_values(pview) =~= Seq::<Node>::empty().map_values(view_of));
    }
    while i < nodes.len()
        invariant
            i <= nodes@.len(),
            policies@.map_values(pview) == nodes@.subrange(0, i as int).filter(pred).map_values(view_of),
        decreases nodes@.len() - i,
    {
        let node = &nodes[i];
        let ghost before = nodes@.subrange(0, i as int).filter(pred);
        proof { lemma_filter_step(nodes@, pred, i as int); }
        if !node.is_gate() && is_running_node(state, &node.id) {
            let on_interrupt = match node.on_interrupt {
                Some(own) => own,
                None => default_on_interrupt,
            };
            let ghost pv = policies@;
            policies.push(ResumePolicy { node: node.id.clone(), on_interrupt });
            proof {
                assert(pred(nodes@[i as int]));
                assert(policies@.map_values(pview) =~= pv.map_values(pview).push(view_of(nodes@[i as int])));
                assert(before.push(nodes@[i as int]).map_values(view_of) =~= before.map_values(view_of).push(view_of(nodes@[i as int])));
            }
        }
        i = i + 1;
    }
    proof { assert(nodes@.subrange(0, nodes@.len() as int) =~= nodes@); }
    policies
}

impl Policy {
    /// The knobs a run froze, for the mode this invocation runs.
    pub fn of(
        workflow: &Workflow,
        max_parallel_nodes: u32,
        on_interrupt: OnInterrupt,
        on_failure: DefaultOnFailure,
        mode_name: &String,
    ) -> (policy: Policy)
        ensures
            policy.max_parallel_nodes == max_parallel_nodes,
            policy.on_interrupt == on_interrupt,
            policy.on_failure == on_failure,
            policy.mode_nodes matches Some(ids) ==> crate::modes::mode_selection(workflow.modes, mode_name@) == Some(ids@),
            policy.mode_nodes is None ==> crate::modes::mode_selection(workflow.modes, mode_name@) is None,
    {
        Policy {
            max_parallel_nodes,
            on_interrupt,
            on_failure,
            mode_nodes: crate::modes::mode_included_nodes(workflow, mode_name),
        }
    }
}

/// Whether no record has run out of attempt numbers.
pub fn attempts_within_bounds(state: &RunState) -> (bounded: bool)
    ensures
        bounded == attempts_bounded(*state),
{
    let mut i: usize = 0;
    while i < state.nodes.records.len()
        invariant
            i <= state.nodes.records@.len(),
            forall|k: int| 0 <= k < i ==> (#[trigger] state.nodes.records@[k]).attempts < u32::MAX,
        decreases state.nodes.records@.len() - i,
    {
        if state.nodes.records[i].attempts == u32::MAX {
            return false;
        }
        i = i + 1;
    }
    true
}

} // verus!
