//! The folds of a run's log the scheduler reads: per node, what it is now
//! and what happened to it; per gate, where its wait stands.

use vstd::prelude::*;

use crate::text::same_text;

verus! {

/// The first position at or after `from` whose item `key` maps to `id`.
pub open spec fn find_keyed<T>(items: Seq<T>, key: spec_fn(T) -> Seq<char>, id: Seq<char>, from: int) -> Option<int>
    decreases items.len() - from,
{
    if from < 0 || from >= items.len() {
        None
    } else if key(items[from]) == id {
        Some(from)
    } else {
        find_keyed(items, key, id, from + 1)
    }
}

/// The item keyed `id`, if any.
pub open spec fn lookup_keyed<T>(items: Seq<T>, key: spec_fn(T) -> Seq<char>, id: Seq<char>) -> Option<T> {
    match find_keyed(items, key, id, 0) {
        Some(i) => Some(items[i]),
        None => None,
    }
}

/// `items` with `item` in place of the item under its key, or appended when
/// there was none.
pub open spec fn put_keyed<T>(items: Seq<T>, key: spec_fn(T) -> Seq<char>, item: T) -> Seq<T> {
    match find_keyed(items, key, key(item), 0) {
        Some(i) => items.update(i, item),
        None => items.push(item),
    }
}

pub proof fn lemma_find_keyed<T>(items: Seq<T>, key: spec_fn(T) -> Seq<char>, id: Seq<char>, from: int)
    requires
        0 <= from,
    ensures
        match find_keyed(items, key, id, from) {
            Some(i) => from <= i < items.len() && key(items[i]) == id
                && forall|j: int| from <= j < i ==> key(#[trigger] items[j]) != id,
            None => forall|j: int| from <= j < items.len() ==> key(#[trigger] items[j]) != id,
        },
    decreases items.len() - from,
{
    if from < items.len() {
        lemma_find_keyed(items, key, id, from + 1);
    }
}

/// The first position keyed `id` is the one the characterization names.
pub proof fn lemma_find_keyed_is_first<T>(items: Seq<T>, key: spec_fn(T) -> Seq<char>, id: Seq<char>, i: int)
    requires
        0 <= i < items.len(),
        key(items[i]) == id,
        forall|j: int| 0 <= j < i ==> key(#[trigger] items[j]) != id,
    ensures
        find_keyed(items, key, id, 0) == Some(i),
{
    lemma_find_keyed(items, key, id, 0);
    match find_keyed(items, key, id, 0) {
        Some(k) => {
            if k < i {
                assert(key(items[k]) != id);
            }
            if k > i {
                assert(key(items[i]) != id);
            }
        },
        None => {
            assert(key(items[i]) != id);
        },
    }
}

/// After a put, looking up the item's own key finds it, and every other key
/// finds what it found before.
pub proof fn lemma_put_keyed<T>(items: Seq<T>, key: spec_fn(T) -> Seq<char>, item: T, id: Seq<char>)
    ensures
        lookup_keyed(put_keyed(items, key, item), key, id) == if id == key(item) {
            Some(item)
        } else {
            lookup_keyed(items, key, id)
        },
{
    let after = put_keyed(items, key, item);
    lemma_find_keyed(items, key, key(item), 0);
    lemma_find_keyed(items, key, id, 0);
    lemma_find_keyed(after, key, id, 0);
    match find_keyed(items, key, key(item), 0) {
        Some(p) => {
            assert(after[p] == item);
            if id == key(item) {
                lemma_find_keyed_is_first(after, key, id, p);
            } else {
                match find_keyed(items, key, id, 0) {
                    Some(q) => {
                        assert(after[q] == items[q]);
                        lemma_find_keyed_is_first(after, key, id, q);
                    },
                    None => {
                        assert forall|j: int| 0 <= j < after.len() implies key(#[trigger] after[j]) != id by {
                            if j != p {
                                assert(after[j] == items[j]);
                            }
                        }
                    },
                }
            }
        },
        None => {
            assert(after.len() == items.len() + 1);
            if id == key(item) {
                lemma_find_keyed_is_first(after, key, id, items.len() as int);
            } else {
                match find_keyed(items, key, id, 0) {
                    Some(q) => {
                        assert(after[q] == items[q]);
                        lemma_find_keyed_is_first(after, key, id, q);
                    },
                    None => {
                        assert forall|j: int| 0 <= j < after.len() implies key(#[trigger] after[j]) != id by {
                            if j < items.len() {
                                assert(after[j] == items[j]);
                            }
                        }
                    },
                }
            }
        },
    }
}

/// Tokens spent, in and out.
#[derive(Debug, Clone, Copy, PartialEq, Eq, Default)]
pub struct TokenUsage {
    pub input: u64,
    pub output: u64,
}

impl TokenUsage {
    /// Both counts summed, each saturating at `u64::MAX`.
    pub fn plus(self, other: TokenUsage) -> (sum: TokenUsage)
        ensures
            sum == token_sum(self, other),
    {
        TokenUsage { input: self.input.saturating_add(other.input), output: self.output.saturating_add(other.output) }
    }

    /// Input and output together, saturating at `u64::MAX`.
    pub fn total(self) -> (total: u64)
        ensures
            total == saturating(self.input + self.output),
    {
        self.input.saturating_add(self.output)
    }
}

pub open spec fn saturating(n: int) -> u64 {
    if n > u64::MAX { u64::MAX } else { n as u64 }
}

pub open spec fn token_sum(a: TokenUsage, b: TokenUsage) -> TokenUsage {
    TokenUsage { input: saturating(a.input + b.input), output: saturating(a.output + b.output) }
}

/// Why a node failed, in the one sentence its `node_failed` recorded.
#[derive(Debug, Clone, PartialEq, Eq)]
pub struct Failure {
    pub message: String,
}

impl Failure {
    /// The same failure, owned.
    pub fn duplicate(&self) -> (copy: Failure)
        ensures
            copy == *self,
    {
        Failure { message: self.message.clone() }
    }
}

/// What a node is, as its log derives it.
#[derive(Debug, Clone, PartialEq, Eq)]
pub enum NodeState {
    Running,
    Finished { outcome: String },
    Failed { failure: Failure },
    /// Suspended on a person: a published gate (with the forge's handle,
    /// once it has one) or questions awaiting answers.
    Waiting { external_ref: Option<String> },
}

/// A re-route recorded on the log: when, and to which node.
#[derive(Debug, Clone, PartialEq, Eq)]
pub struct Reroute {
    pub seq: u64,
    pub to: String,
}

/// Everything the log says about one node.
#[derive(Debug, Clone, PartialEq, Eq)]
pub struct NodeRecord {
    pub node: String,
    pub state: Option<NodeState>,
    /// How many times it was started.
    pub attempts: u32,
    /// How many times a failure of it was re-routed.
    pub reroutes: u32,
    pub last_failed: Option<u64>,
    pub last_finished: Option<u64>,
    pub last_terminal: Option<u64>,
    pub last_reroute: Option<Reroute>,
    /// Tokens of its closed attempts.
    pub tokens_closed: TokenUsage,
}

/// The first record at or after `from` that belongs to `id`.
pub open spec fn find_record(records: Seq<NodeRecord>, id: Seq<char>, from: int) -> Option<int>
    decreases records.len() - from,
{
    if from < 0 || from >= records.len() {
        None
    } else if records[from].node@ == id {
        Some(from)
    } else {
        find_record(records, id, from + 1)
    }
}

pub proof fn lemma_find_record(records: Seq<NodeRecord>, id: Seq<char>, from: int)
    requires
        0 <= from,
    ensures
        match find_record(records, id, from) {
            Some(i) => from <= i < records.len() && records[i].node@ == id
                && forall|j: int| from <= j < i ==> #[trigger] records[j].node@ != id,
            None => forall|j: int| from <= j < records.len() ==> #[trigger] records[j].node@ != id,
        },
    decreases records.len() - from,
{
    if from < records.len() {
        lemma_find_record(records, id, from + 1);
    }
}

/// Every node's record, one per node.
#[derive(Debug, Clone, PartialEq, Eq, Default)]
pub struct NodeLedger {
    pub records: Vec<NodeRecord>,
}

/// The record the log holds for `id`.
pub open spec fn record_of(ledger: NodeLedger, id: Seq<char>) -> Option<NodeRecord> {
    match find_record(ledger.records@, id, 0) {
        Some(i) => Some(ledger.records@[i]),
        None => None,
    }
}

/// What the log derives `id` to be now; `None` for a node never started.
pub open spec fn state_of(ledger: NodeLedger, id: Seq<char>) -> Option<NodeState> {
    match record_of(ledger, id) {
        Some(record) => record.state,
        None => None,
    }
}

pub open spec fn is_running(state: Option<NodeState>) -> bool {
    state matches Some(NodeState::Running)
}

pub open spec fn is_finished(state: Option<NodeState>) -> bool {
    state matches Some(NodeState::Finished { .. })
}

impl NodeLedger {
    /// The position of `id`'s record.
    pub fn position(&self, id: &String) -> (found: Option<usize>)
        ensures
            found matches Some(i) ==> i < self.records@.len() && find_record(self.records@, id@, 0) == Some(i as int),
            found is None ==> find_record(self.records@, id@, 0) is None,
    {
        let mut i: usize = 0;
        while i < self.records.len()
            invariant
                i <= self.records@.len(),
                find_record(self.records@, id@, 0) == find_record(self.records@, id@, i as int),
            decreases self.records@.len() - i,
        {
            if same_text(&self.records[i].node, id) {
                return Some(i);
            }
            i = i + 1;
        }
        None
    }

    /// The record the log holds for `id`.
    pub fn get(&self, id: &String) -> (record: Option<&NodeRecord>)
        ensures
            record matches Some(r) ==> record_of(*self, id@) == Some(*r),
            record is None ==> record_of(*self, id@) is None,
    {
        match self.position(id) {
            Some(i) => Some(&self.records[i]),
            None => None,
        }
    }

    /// What `id` is now.
    pub fn state(&self, id: &String) -> (state: Option<&NodeState>)
        ensures
            state matches Some(s) ==> state_of(*self, id@) == Some(*s),
            state is None ==> state_of(*self, id@) is None,
    {
        match self.get(id) {
            Some(record) => match &record.state {
                Some(state) => Some(state),
                None => None,
            },
            None => None,
        }
    }

    /// Whether the log has moved `id` into any state at all.
    pub fn has_state(&self, id: &String) -> (has: bool)
        ensures
            has == (state_of(*self, id@) is Some),
    {
        self.state(id).is_some()
    }

    /// How many times `id` was started.
    pub fn attempts(&self, id: &String) -> (attempts: u32)
        ensures
            attempts == attempts_of(*self, id@),
    {
        match self.get(id) {
            Some(record) => record.attempts,
            None => 0,
        }
    }

    /// Whether any record exists at all.
    pub fn is_empty(&self) -> (empty: bool)
        ensures
            empty == (self.records@.len() == 0),
    {
        self.records.len() == 0
    }
}

/// How many times `id` was started.
pub open spec fn attempts_of(ledger: NodeLedger, id: Seq<char>) -> u32 {
    match record_of(ledger, id) {
        Some(record) => record.attempts,
        None => 0,
    }
}

/// A decision recorded for a gate.
#[derive(Debug, Clone, PartialEq, Eq)]
pub enum GateResolution {
    /// A person chose this option.
    Chosen { option: String },
    /// The forge answered: who reviewed, and the head commit they approved
    /// when they approved.
    Forge { resolved_by: Option<String>, approved_sha: Option<String> },
}

/// Everything the log says about the waits of one node.
#[derive(Debug, Clone, PartialEq, Eq)]
pub struct GateRecord {
    pub node: String,
    /// The forge's handle the node's gate was last published under.
    pub external_ref: Option<String>,
    /// When the latest escalation was put to a person.
    pub waiting: Option<u64>,
    /// The latest decision, with when it was recorded.
    pub resolved: Option<(GateResolution, u64)>,
    /// When the latest round of questions was asked.
    pub asked_at: Option<u64>,
    /// When the latest round of questions was answered, if it was.
    pub answered_at: Option<u64>,
}

pub open spec fn find_gate(records: Seq<GateRecord>, id: Seq<char>, from: int) -> Option<int>
    decreases records.len() - from,
{
    if from < 0 || from >= records.len() {
        None
    } else if records[from].node@ == id {
        Some(from)
    } else {
        find_gate(records, id, from + 1)
    }
}

/// Every node's waits, one record per node.
#[derive(Debug, Clone, PartialEq, Eq, Default)]
pub struct GateLedger {
    pub records: Vec<GateRecord>,
}

pub open spec fn gate_of(ledger: GateLedger, id: Seq<char>) -> Option<GateRecord> {
    match find_gate(ledger.records@, id, 0) {
        Some(i) => Some(ledger.records@[i]),
        None => None,
    }
}

/// The handle `id`'s gate was last published under.
pub open spec fn external_ref_of(ledger: GateLedger, id: Seq<char>) -> Option<String> {
    match gate_of(ledger, id) {
        Some(record) => record.external_ref,
        None => None,
    }
}

/// When `id`'s latest round of questions was answered, if it was.
pub open spec fn answered_at_of(ledger: GateLedger, id: Seq<char>) -> Option<u64> {
    match gate_of(ledger, id) {
        Some(record) => record.answered_at,
        None => None,
    }
}

impl GateLedger {
    pub fn position(&self, id: &String) -> (found: Option<usize>)
        ensures
            found matches Some(i) ==> i < self.records@.len() && find_gate(self.records@, id@, 0) == Some(i as int),
            found is None ==> find_gate(self.records@, id@, 0) is None,
    {
        let mut i: usize = 0;
        while i < self.records.len()
            invariant
                i <= self.records@.len(),
                find_gate(self.records@, id@, 0) == find_gate(self.records@, id@, i as int),
            decreases self.records@.len() - i,
        {
            if same_text(&self.records[i].node, id) {
                return Some(i);
            }
            i = i + 1;
        }
        None
    }

    /// The record of `id`'s waits.
    pub fn get(&self, id: &String) -> (record: Option<&GateRecord>)
        ensures
            record matches Some(r) ==> gate_of(*self, id@) == Some(*r),
            record is None ==> gate_of(*self, id@) is None,
    {
        match self.position(id) {
            Some(i) => Some(&self.records[i]),
            None => None,
        }
    }

    /// The handle `id`'s gate was last published under.
    pub fn last_external_ref(&self, id: &String) -> (external_ref: Option<&String>)
        ensures
            external_ref matches Some(r) ==> external_ref_of(*self, id@) == Some(*r),
            external_ref is None ==> external_ref_of(*self, id@) is None,
    {
        match self.get(id) {
            Some(record) => match &record.external_ref {
                Some(r) => Some(r),
                None => None,
            },
            None => None,
        }
    }

    /// When `id`'s latest round of questions was answered, if it was.
    pub fn answered_at(&self, id: &String) -> (at: Option<u64>)
        ensures
            at == answered_at_of(*self, id@),
    {
        match self.get(id) {
            Some(record) => record.answered_at,
            None => None,
        }
    }
}

/// Node records are keyed by their node.
pub open spec fn node_key() -> spec_fn(NodeRecord) -> Seq<char> {
    |r: NodeRecord| r.node@
}

/// Gate records are keyed by their node.
pub open spec fn gate_key() -> spec_fn(GateRecord) -> Seq<char> {
    |r: GateRecord| r.node@
}

pub proof fn lemma_find_record_keyed(records: Seq<NodeRecord>, id: Seq<char>, from: int)
    ensures
        find_record(records, id, from) == find_keyed(records, node_key(), id, from),
    decreases records.len() - from,
{
    if 0 <= from < records.len() {
        lemma_find_record_keyed(records, id, from + 1);
    }
}

pub proof fn lemma_find_gate_keyed(records: Seq<GateRecord>, id: Seq<char>, from: int)
    ensures
        find_gate(records, id, from) == find_keyed(records, gate_key(), id, from),
    decreases records.len() - from,
{
    if 0 <= from < records.len() {
        lemma_find_gate_keyed(records, id, from + 1);
    }
}

/// The state the records say `id` is in.
pub open spec fn state_in(records: Seq<NodeRecord>, id: Seq<char>) -> Option<NodeState> {
    match lookup_keyed(records, node_key(), id) {
        Some(record) => record.state,
        None => None,
    }
}

/// A node the log has not moved yet.
pub open spec fn fresh_node(node: String) -> NodeRecord {
    NodeRecord {
        node,
        state: None,
        attempts: 0,
        reroutes: 0,
        last_failed: None,
        last_finished: None,
        last_terminal: None,
        last_reroute: None,
        tokens_closed: TokenUsage { input: 0, output: 0 },
    }
}

/// The record of `node`, or a fresh one.
pub open spec fn current_node(records: Seq<NodeRecord>, node: String) -> NodeRecord {
    match lookup_keyed(records, node_key(), node@) {
        Some(record) => record,
        None => fresh_node(node),
    }
}

/// A gate never waited on.
pub open spec fn fresh_gate(node: String) -> GateRecord {
    GateRecord { node, external_ref: None, waiting: None, resolved: None, asked_at: None, answered_at: None }
}

/// What the log holds of `node`'s wait, or a fresh record.
pub open spec fn current_gate(records: Seq<GateRecord>, node: String) -> GateRecord {
    match lookup_keyed(records, gate_key(), node@) {
        Some(record) => record,
        None => fresh_gate(node),
    }
}

pub fn dup_text(text: &Option<String>) -> (copy: Option<String>)
    ensures
        copy == *text,
{
    match text {
        Some(t) => Some(t.clone()),
        None => None,
    }
}

impl NodeState {
    /// The same state, owned.
    pub fn duplicate(&self) -> (copy: NodeState)
        ensures
            copy == *self,
    {
        match self {
            NodeState::Running => NodeState::Running,
            NodeState::Finished { outcome } => NodeState::Finished { outcome: outcome.clone() },
            NodeState::Failed { failure } => NodeState::Failed { failure: failure.duplicate() },
            NodeState::Waiting { external_ref } => NodeState::Waiting { external_ref: dup_text(external_ref) },
        }
    }
}

pub fn dup_state(state: &Option<NodeState>) -> (copy: Option<NodeState>)
    ensures
        copy == *state,
{
    match state {
        Some(s) => Some(s.duplicate()),
        None => None,
    }
}

impl NodeRecord {
    /// The same record, owned.
    pub fn duplicate(&self) -> (copy: NodeRecord)
        ensures
            copy == *self,
    {
        NodeRecord {
            node: self.node.clone(),
            state: dup_state(&self.state),
            attempts: self.attempts,
            reroutes: self.reroutes,
            last_failed: self.last_failed,
            last_finished: self.last_finished,
            last_terminal: self.last_terminal,
            last_reroute: match &self.last_reroute {
                Some(r) => Some(Reroute { seq: r.seq, to: r.to.clone() }),
                None => None,
            },
            tokens_closed: self.tokens_closed,
        }
    }
}

impl GateResolution {
    /// The same resolution, owned.
    pub fn duplicate(&self) -> (copy: GateResolution)
        ensures
            copy == *self,
    {
        match self {
            GateResolution::Chosen { option } => GateResolution::Chosen { option: option.clone() },
            GateResolution::Forge { resolved_by, approved_sha } => GateResolution::Forge {
                resolved_by: dup_text(resolved_by),
                approved_sha: dup_text(approved_sha),
            },
        }
    }
}

impl GateRecord {
    /// The same record, owned.
    pub fn duplicate(&self) -> (copy: GateRecord)
        ensures
            copy == *self,
    {
        GateRecord {
            node: self.node.clone(),
            external_ref: dup_text(&self.external_ref),
            waiting: self.waiting,
            resolved: match &self.resolved {
                Some((resolution, at)) => Some((resolution.duplicate(), *at)),
                None => None,
            },
            asked_at: self.asked_at,
            answered_at: self.answered_at,
        }
    }
}

impl NodeLedger {
    /// The record of `node`, or a fresh one.
    pub fn current(&self, node: &String) -> (record: NodeRecord)
        ensures
            record == current_node(self.records@, *node),
    {
        proof { lemma_find_record_keyed(self.records@, node@, 0); }
        match self.position(node) {
            Some(i) => self.records[i].duplicate(),
            None => NodeRecord {
                node: node.clone(),
                state: None,
                attempts: 0,
                reroutes: 0,
                last_failed: None,
                last_finished: None,
                last_terminal: None,
                last_reroute: None,
                tokens_closed: TokenUsage { input: 0, output: 0 },
            },
        }
    }

    /// Puts `record` in place of its node's record, or appends it.
    pub fn put(&mut self, record: NodeRecord)
        ensures
            final(self).records@ == put_keyed(old(self).records@, node_key(), record),
    {
        proof { lemma_find_record_keyed(self.records@, record.node@, 0); }
        match self.position(&record.node) {
            Some(i) => { self.records.set(i, record); },
            None => { self.records.push(record); },
        }
    }
}

impl GateLedger {
    /// What the log holds of `node`'s wait, or a fresh record.
    pub fn current(&self, node: &String) -> (record: GateRecord)
        ensures
            record == current_gate(self.records@, *node),
    {
        proof { lemma_find_gate_keyed(self.records@, node@, 0); }
        match self.position(node) {
            Some(i) => self.records[i].duplicate(),
            None => GateRecord {
                node: node.clone(),
                external_ref: None,
                waiting: None,
                resolved: None,
                asked_at: None,
                answered_at: None,
            },
        }
    }

    /// Puts `record` in place of its node's record, or appends it.
    pub fn put(&mut self, record: GateRecord)
        ensures
            final(self).records@ == put_keyed(old(self).records@, gate_key(), record),
    {
        proof { lemma_find_gate_keyed(self.records@, record.node@, 0); }
        match self.position(&record.node) {
            Some(i) => { self.records.set(i, record); },
            None => { self.records.push(record); },
        }
    }
}

} // verus!
