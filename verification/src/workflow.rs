//! The workflow a run executes, as the engine reads it: its nodes, the
//! edges between them, and the modes that narrow it.

use vstd::prelude::*;

use crate::text::texts;

verus! {

/// What a node whose session was interrupted does on resume.
#[derive(Debug, Clone, Copy, PartialEq, Eq)]
pub enum OnInterrupt {
    RestartNode,
    ResumeSession,
    FailIfUncertain,
}

/// What a failed node with no `on_failure` of its own does to the run.
#[derive(Debug, Clone, Copy, PartialEq, Eq)]
pub enum DefaultOnFailure {
    Pause,
    Abort,
    Continue,
}

/// A node's own re-route on failure: where control goes, and how often.
#[derive(Debug, Clone, PartialEq, Eq)]
pub struct OnFailure {
    pub goto: String,
    pub max_reroutes: u32,
}

/// The documents the engine interprets.
#[derive(Debug, Clone, Copy, PartialEq, Eq)]
pub enum ArtifactKind {
    TaskLedger,
    Findings,
    Questions,
}

/// One artifact a node declares it produces: opaque, or of a kind the
/// engine reads and validates.
#[derive(Debug, Clone, PartialEq, Eq)]
pub enum ArtifactSpec {
    Plain(String),
    Typed { name: String, kind: ArtifactKind },
}

/// How a `parallel` group's children join: all of them must finish, or
/// the first to finish wins and the others are interrupted.
#[derive(Debug, Clone, Copy, PartialEq, Eq)]
pub enum JoinPolicy {
    All,
    Any,
}

/// How a finding ranks, worst first.
#[derive(Debug, Clone, Copy, PartialEq, Eq)]
pub enum FindingSeverity {
    Blocking,
    Major,
    Minor,
    Note,
}

/// The engine's own checks.
#[derive(Debug, Clone, Copy, PartialEq, Eq)]
pub enum CheckBuiltin {
    BaselineCompare,
    CoverageGate,
    FindingsGate { max_severity: FindingSeverity },
}

/// Where a prompt's text comes from.
#[derive(Debug, Clone, PartialEq, Eq)]
pub enum PromptSource {
    Inline(String),
    File(String),
}

/// One option of a gate mapped to the node it re-routes to.
#[derive(Debug, Clone, PartialEq, Eq)]
pub struct GateRoute {
    pub option: String,
    pub target: String,
}

/// A child workflow's read of one of this run's artifacts.
#[derive(Debug, Clone, PartialEq, Eq)]
pub struct Mount {
    pub node: String,
    pub name: String,
}

/// A source a node's context is assembled from.
#[derive(Debug, Clone, PartialEq, Eq)]
pub enum ContextSpec {
    Files { files: Vec<String> },
    Command { command: String },
    Artifact { node: Option<String>, name: String },
    RunEvents { filter: Option<String> },
    Ledger,
    Knowledge { layers: Vec<String> },
    NodeOutput { node: String },
    Mcp { server: String, query: String },
}

/// One hook command.
#[derive(Debug, Clone, PartialEq, Eq)]
pub struct HookStep {
    pub run: String,
}

/// The commands around a node's work.
#[derive(Debug, Clone, PartialEq, Eq)]
pub struct Hooks {
    pub before: Vec<HookStep>,
    pub after: Vec<HookStep>,
}

/// What a node does.
#[derive(Debug, PartialEq, Eq)]
pub enum NodeKind {
    Prompt { prompt: PromptSource },
    Bash { run: String },
    /// `concurrency` is how many ready tasks one iteration may work on.
    Loop { until: String, prompt: PromptSource, concurrency: Option<u32> },
    Parallel { nodes: Vec<Node>, join: JoinPolicy },
    Check(CheckBuiltin),
    Executor { executor: String },
    /// `external` is whether it is published to a forge.
    Gate { assignee: String, message: Option<String>, options: Vec<String>, on: Vec<GateRoute>, external: bool },
    Workflow { mounts: Vec<Mount> },
}

/// One node of a workflow.
#[derive(Debug, PartialEq, Eq)]
pub struct Node {
    pub id: String,
    pub kind: NodeKind,
    pub description: Option<String>,
    pub depends_on: Vec<String>,
    pub on_failure: Option<OnFailure>,
    pub on_interrupt: Option<OnInterrupt>,
    pub runner: Option<String>,
    /// The agent the node's sessions run as, over its runner's own.
    pub agent: Option<String>,
    pub runners: Vec<String>,
    pub context: Vec<ContextSpec>,
    pub artifacts: Vec<ArtifactSpec>,
    pub hooks: Option<Hooks>,
    pub scope: Vec<String>,
}

/// Which nodes a mode schedules.
#[derive(Debug, Clone, PartialEq, Eq)]
pub enum ModeInclude {
    All,
    Nodes(Vec<String>),
}

/// One declared mode, in declaration order.
#[derive(Debug, Clone, PartialEq, Eq)]
pub struct ModeEntry {
    pub name: String,
    pub selects: ModeInclude,
}

/// A workflow: its nodes in declaration order and its modes, if any.
#[derive(Debug, PartialEq, Eq)]
pub struct Workflow {
    pub name: String,
    pub nodes: Vec<Node>,
    pub modes: Option<Vec<ModeEntry>>,
}

/// Whether `kind` is a `kind: gate`.
pub open spec fn is_gate_kind(kind: NodeKind) -> bool {
    kind is Gate
}

/// Whether `kind` is a gate published to a forge.
pub open spec fn is_external_gate_kind(kind: NodeKind) -> bool {
    match kind {
        NodeKind::Gate { external, .. } => external,
        _ => false,
    }
}

/// Whether an artifact is a `kind: questions` document.
pub open spec fn is_questions(spec: ArtifactSpec) -> bool {
    spec matches ArtifactSpec::Typed { kind: ArtifactKind::Questions, .. }
}

/// A node asks questions when it declares a `kind: questions` artifact.
pub open spec fn node_asks(node: Node) -> bool {
    exists|i: int| 0 <= i < node.artifacts@.len() && is_questions(#[trigger] node.artifacts@[i])
}

impl Node {
    /// A node of `kind` with nothing else declared.
    pub fn new(id: String, kind: NodeKind) -> (node: Node)
        ensures
            node.id == id,
            node.kind == kind,
            node.depends_on@.len() == 0,
            node.on_failure is None,
            node.on_interrupt is None,
            node.artifacts@.len() == 0,
            node.runners@.len() == 0,
            node.context@.len() == 0,
    {
        Node {
            id,
            kind,
            description: None,
            depends_on: Vec::new(),
            on_failure: None,
            on_interrupt: None,
            runner: None,
            agent: None,
            runners: Vec::new(),
            context: Vec::new(),
            artifacts: Vec::new(),
            hooks: None,
            scope: Vec::new(),
        }
    }

    /// Whether this node is a `kind: gate`.
    pub fn is_gate(&self) -> (gate: bool)
        ensures
            gate == is_gate_kind(self.kind),
    {
        matches!(self.kind, NodeKind::Gate { .. })
    }

    /// Whether this node is a gate published to a forge.
    pub fn is_external_gate(&self) -> (external: bool)
        ensures
            external == is_external_gate_kind(self.kind),
    {
        match &self.kind {
            NodeKind::Gate { external, .. } => *external,
            _ => false,
        }
    }

    /// Whether this node declares questions for a person to answer.
    pub fn asks(&self) -> (asks: bool)
        ensures
            asks == node_asks(*self),
    {
        let mut i: usize = 0;
        while i < self.artifacts.len()
            invariant
                i <= self.artifacts@.len(),
                forall|j: int| 0 <= j < i ==> !is_questions(#[trigger] self.artifacts@[j]),
            decreases self.artifacts@.len() - i,
        {
            if let ArtifactSpec::Typed { kind: ArtifactKind::Questions, .. } = &self.artifacts[i] {
                assert(is_questions(self.artifacts@[i as int]));
                return true;
            }
            i = i + 1;
        }
        false
    }
}

/// The ids of `nodes`, in order.
pub open spec fn node_ids(nodes: Seq<Node>) -> Seq<Seq<char>> {
    nodes.map_values(|n: Node| n.id@)
}

/// The last node carrying `id` — the one a lookup by id finds.
pub open spec fn last_node_index(nodes: Seq<Node>, id: Seq<char>) -> Option<int>
    decreases nodes.len(),
{
    if nodes.len() == 0 {
        None
    } else if nodes.last().id@ == id {
        Some(nodes.len() - 1)
    } else {
        last_node_index(nodes.drop_last(), id)
    }
}

pub proof fn lemma_last_node_index(nodes: Seq<Node>, id: Seq<char>)
    ensures
        match last_node_index(nodes, id) {
            Some(i) => 0 <= i < nodes.len() && nodes[i].id@ == id
                && forall|j: int| i < j < nodes.len() ==> #[trigger] nodes[j].id@ != id,
            None => forall|j: int| 0 <= j < nodes.len() ==> #[trigger] nodes[j].id@ != id,
        },
    decreases nodes.len(),
{
    if nodes.len() > 0 {
        lemma_last_node_index(nodes.drop_last(), id);
        if nodes.last().id@ != id {
            assert forall|j: int| 0 <= j < nodes.len() - 1 implies #[trigger] nodes[j].id@ == nodes.drop_last()[j].id@ by {}
        }
    }
}

/// The index of the last node whose id is `id`.
pub fn find_node_index(nodes: &Vec<Node>, id: &String) -> (found: Option<usize>)
    ensures
        found matches Some(i) ==> last_node_index(nodes@, id@) == Some(i as int),
        found is None ==> last_node_index(nodes@, id@) is None,
{
    proof { lemma_last_node_index(nodes@, id@); }
    let mut i: usize = nodes.len();
    while i > 0
        invariant
            i <= nodes@.len(),
            forall|j: int| i <= j < nodes@.len() ==> #[trigger] nodes@[j].id@ != id@,
            last_node_index(nodes@, id@) matches Some(k) ==> 0 <= k < nodes@.len() && nodes@[k].id@ == id@
                && forall|j: int| k < j < nodes@.len() ==> #[trigger] nodes@[j].id@ != id@,
            last_node_index(nodes@, id@) is None ==> forall|j: int| 0 <= j < nodes@.len() ==> #[trigger] nodes@[j].id@ != id@,
        decreases i,
    {
        i = i - 1;
        if crate::text::same_text(&nodes[i].id, id) {
            proof {
                if let Some(k) = last_node_index(nodes@, id@) {
                    if k < i { assert(nodes@[i as int].id@ != id@); }
                    if k > i { assert(nodes@[k].id@ != id@); }
                }
            }
            return Some(i);
        }
    }
    None
}

/// A copy of a list of strings.
pub fn copy_texts(list: &Vec<String>) -> (copy: Vec<String>)
    ensures
        copy@ == list@,
{
    let mut copy: Vec<String> = Vec::new();
    let mut i: usize = 0;
    while i < list.len()
        invariant
            i <= list@.len(),
            copy@ == list@.subrange(0, i as int),
        decreases list@.len() - i,
    {
        copy.push(list[i].clone());
        i = i + 1;
    }
    proof { assert(list@.subrange(0, list@.len() as int) =~= list@); }
    copy
}

} // verus!
