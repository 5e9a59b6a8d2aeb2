//! Run-level token budget and loop caps: what a session may spend, and the
//! escalation put to a person when a cap is spent. Exhaustion is never a
//! silent pause: it is asked first (`continue`/`abort`), and only pauses
//! when the answer is `abort` or nobody can answer.

use vstd::prelude::*;
use vstd::string::StringExecFns;

use crate::escalation::{option_ids, Escalation, EscalationError, Fact, GateOption};
use crate::reserved::{self, parse_spec, spelling, ReservedOption};
use crate::ledger::{is_finished, saturating, state_of, NodeLedger, NodeState};
use crate::replay::RunState;
use crate::schedule::PauseReason;
use crate::receipt::{flat_nodes, node_group};
use crate::workflow::{Node, NodeKind};
use crate::text::{decimal, decimal_spec};

verus! {

/// An equal share of the run cap, bounded by what actually remains:
/// `min(cap - spent, cap / max(1, n))`, the subtraction saturating at zero.
pub open spec fn session_budget_spec(cap: u64, spent: u64, non_terminal_nodes: usize) -> u64 {
    let remaining: int = if spent >= cap { 0 } else { cap - spent };
    let share: int = cap as int / (if non_terminal_nodes == 0 { 1int } else { non_terminal_nodes as int });
    (if remaining <= share { remaining } else { share }) as u64
}

/// Pure session-budget policy: one agent session may spend at most an
/// equal share of the run cap, bounded by what actually remains. It never
/// predicts which nodes are cheap; it only guarantees that no single
/// session can spend the whole remaining budget while other nodes still
/// have work coming.
pub fn session_token_budget(cap: u64, spent: u64, non_terminal_nodes: usize) -> (budget: u64)
    ensures
        budget == session_budget_spec(cap, spent, non_terminal_nodes),
        budget <= cap,
        spent >= cap ==> budget == 0,
{
    let remaining = cap.saturating_sub(spent);
    let nodes: u64 = if non_terminal_nodes == 0 { 1 } else { non_terminal_nodes as u64 };
    let share = cap / nodes;
    proof {
        assert(share <= cap) by (nonlinear_arith)
            requires
                nodes >= 1,
                share == cap / nodes,
        ;
    }
    if remaining <= share { remaining } else { share }
}

/// What an invocation does once a person (or nobody) answered a cap's
/// escalation.
#[derive(Debug, Clone, PartialEq, Eq)]
pub enum BudgetDecision {
    /// The cap is lifted for the rest of this invocation only.
    Continue,
    /// Pause with this reason: `abort` was chosen, or nobody could be asked.
    Pause { reason: PauseReason },
}

/// The decision a cap's escalation comes to: `continue` chosen lifts the
/// cap; any other choice, or no answer at all, pauses with `reason`.
pub fn budget_decision(choice: Option<&String>, reason: PauseReason) -> (decision: BudgetDecision)
    ensures
        decision == (match choice {
            Some(option) if parse_spec(option@) == Some(ReservedOption::Continue) => BudgetDecision::Continue,
            _ => BudgetDecision::Pause { reason },
        }),
{
    match choice {
        Some(option) => {
            if matches!(ReservedOption::of(option.as_str()), Some(ReservedOption::Continue)) {
                BudgetDecision::Continue
            } else {
                BudgetDecision::Pause { reason }
            }
        },
        None => BudgetDecision::Pause { reason },
    }
}

/// The claim of a spent run budget.
pub open spec fn budget_claim(run_id: Seq<char>) -> Seq<char> {
    "run `"@ + run_id + "` exhausted its token budget"@
}

/// The escalation object and pause reason for an exhausted run token
/// budget: the cap and what the log says was spent as its record, and the
/// two options with their tradeoffs spelled out.
pub fn over_budget_escalation(run_id: &String, spent: u64, cap: u64) -> (built: Result<(Escalation, PauseReason), EscalationError>)
    ensures
        built matches Ok((e, reason)) && ({
            &&& e.claim@ == budget_claim(run_id@)
            &&& e.facts@.len() == 2
            &&& e.facts@[0] matches Fact::Labelled { label, value }
                && label@ == "limits.max_tokens_per_run"@ && value@ == decimal_spec(cap as nat)
            &&& e.facts@[1] matches Fact::Labelled { label, value }
                && label@ == "total input+output tokens derived from the event log"@ && value@ == decimal_spec(spent as nat)
            &&& option_ids(e.options@) == seq![spelling(ReservedOption::Continue), spelling(ReservedOption::Abort)]
            &&& e.options@[0].label@ == "Continue past the cap"@
            &&& e.options@[1].label@ == "Pause the run"@
            &&& reason == PauseReason::BudgetExhausted { spent, cap }
        }),
{
    let mut claim = String::from_str("run `");
    claim.append(run_id.as_str());
    claim.append("` exhausted its token budget");
    let mut facts: Vec<Fact> = Vec::new();
    facts.push(Fact::Labelled { label: String::from_str("limits.max_tokens_per_run"), value: decimal(cap) });
    facts.push(Fact::Labelled {
        label: String::from_str("total input+output tokens derived from the event log"),
        value: decimal(spent),
    });
    let first = reserved::continue_past_tokens();
    let mut rest: Vec<GateOption> = Vec::new();
    rest.push(reserved::abort_on_tokens());
    proof { distinct_continue_abort(seq![first] + rest@); }
    match Escalation::new(claim, facts, first, rest) {
        Ok(escalation) => {
            proof { assert(option_ids(escalation.options@) =~= seq![spelling(ReservedOption::Continue), spelling(ReservedOption::Abort)]); }
            Ok((escalation, PauseReason::BudgetExhausted { spent, cap }))
        },
        Err(error) => Err(error),
    }
}

/// Two options spelled `continue` and `abort` never share an id.
proof fn distinct_continue_abort(options: Seq<GateOption>)
    requires
        options.len() == 2,
        options[0].id@ == spelling(ReservedOption::Continue),
        options[1].id@ == spelling(ReservedOption::Abort),
    ensures
        option_ids(options).no_duplicates(),
{
    reveal_strlit("continue");
    reveal_strlit("abort");
    let ids = option_ids(options);
    assert(ids[0] != ids[1]) by { assert(ids[0][0] != ids[1][0]); }
}

/// The claim of a loop whose iteration cap is spent.
pub open spec fn loop_claim(node: Seq<char>) -> Seq<char> {
    "loop `"@ + node + "` needs another iteration and its cap is spent"@
}

/// The escalation object and pause reason for a loop that hit its
/// iteration cap: the same continue/abort choice as the token cap, scoped
/// to the loop node. `iteration` is the iteration the loop wants to start,
/// so the record names the ones already run.
pub fn loop_overrun_escalation(node: &String, iteration: u32, cap: u32) -> (built: Result<(Escalation, PauseReason), EscalationError>)
    requires
        iteration >= 1,
    ensures
        built matches Ok((e, reason)) && ({
            &&& e.claim@ == loop_claim(node@)
            &&& e.facts@.len() == 3
            &&& e.facts@[0] matches Fact::Labelled { label, value }
                && label@ == "iterations already run this invocation"@ && value@ == decimal_spec((iteration - 1) as nat)
            &&& e.facts@[1] matches Fact::Labelled { label, value }
                && label@ == "limits.max_loop_iterations"@ && value@ == decimal_spec(cap as nat)
            &&& e.facts@[2] matches Fact::Bare { text } && text@ == "the tasks document still has ready tasks"@
            &&& option_ids(e.options@) == seq![spelling(ReservedOption::Continue), spelling(ReservedOption::Abort)]
            &&& e.options@[0].label@ == "Keep iterating"@
            &&& e.options@[1].label@ == "Fail the loop node"@
            &&& reason == PauseReason::LoopOverrun { node: *node, cap }
        }),
{
    let mut claim = String::from_str("loop `");
    claim.append(node.as_str());
    claim.append("` needs another iteration and its cap is spent");
    let mut facts: Vec<Fact> = Vec::new();
    facts.push(Fact::Labelled {
        label: String::from_str("iterations already run this invocation"),
        value: decimal((iteration - 1) as u64),
    });
    facts.push(Fact::Labelled { label: String::from_str("limits.max_loop_iterations"), value: decimal(cap as u64) });
    facts.push(Fact::Bare { text: String::from_str("the tasks document still has ready tasks") });
    let first = reserved::continue_past_iterations();
    let mut rest: Vec<GateOption> = Vec::new();
    rest.push(reserved::abort_on_iterations());
    proof { distinct_continue_abort(seq![first] + rest@); }
    match Escalation::new(claim, facts, first, rest) {
        Ok(escalation) => {
            proof { assert(option_ids(escalation.options@) =~= seq![spelling(ReservedOption::Continue), spelling(ReservedOption::Abort)]); }
            Ok((escalation, PauseReason::LoopOverrun { node: node.clone(), cap }))
        },
        Err(error) => Err(error),
    }
}

/// How many of `nodes`, `parallel` children included at every depth,
/// have not finished.
pub open spec fn unfinished_in(nodes: Seq<Node>, ledger: NodeLedger) -> nat
    decreases nodes, 0int,
{
    if nodes.len() == 0 {
        0
    } else {
        unfinished_in(nodes.drop_last(), ledger) + unfinished_node(nodes.last(), ledger)
    }
}

/// Whether `node` has not finished, and how many of the nodes it holds
/// have not either.
pub open spec fn unfinished_node(node: Node, ledger: NodeLedger) -> nat
    decreases node, 1int,
{
    (if is_finished(state_of(ledger, node.id@)) { 0nat } else { 1nat }) + match node.kind {
        NodeKind::Parallel { nodes, .. } => unfinished_in(nodes@, ledger),
        _ => 0nat,
    }
}

/// The nodes whose state in `ledger` is anything but finished.
pub open spec fn not_finished_in(ledger: NodeLedger) -> spec_fn(Node) -> bool {
    |n: Node| !is_finished(state_of(ledger, n.id@))
}

proof fn lemma_unfinished_in_counts(nodes: Seq<Node>, ledger: NodeLedger)
    ensures
        unfinished_in(nodes, ledger) == flat_nodes(nodes).filter(not_finished_in(ledger)).len(),
    decreases nodes, 0int,
{
    if nodes.len() > 0 {
        lemma_unfinished_in_counts(nodes.drop_last(), ledger);
        assert(decreases_to!(nodes => nodes[nodes.len() - 1]));
        lemma_unfinished_node_counts(nodes.last(), ledger);
        assert(flat_nodes(nodes) == flat_nodes(nodes.drop_last()) + node_group(nodes.last()));
        Seq::filter_distributes_over_add(flat_nodes(nodes.drop_last()), node_group(nodes.last()), not_finished_in(ledger));
    }
}

proof fn lemma_unfinished_node_counts(node: Node, ledger: NodeLedger)
    ensures
        unfinished_node(node, ledger) == node_group(node).filter(not_finished_in(ledger)).len(),
    decreases node, 1int,
{
    let p = not_finished_in(ledger);
    let head: Seq<Node> = seq![node];
    assert(head =~= Seq::<Node>::empty().push(node));
    Seq::<Node>::empty().lemma_filter_push(node, p);
    assert(Seq::<Node>::empty().filter(p) =~= Seq::<Node>::empty()) by {
        Seq::<Node>::empty().lemma_filter_len(p);
    }
    match node.kind {
        NodeKind::Parallel { nodes: children, .. } => {
            assert(decreases_to!(node => node.kind));
            assert(decreases_to!(node.kind => children));
            assert(decreases_to!(children => children@));
            lemma_unfinished_in_counts(children@, ledger);
            assert(node_group(node) == head + flat_nodes(children@));
            Seq::filter_distributes_over_add(head, flat_nodes(children@), p);
        },
        _ => {
            assert(node_group(node) == head + Seq::<Node>::empty());
            Seq::filter_distributes_over_add(head, Seq::<Node>::empty(), p);
        },
    }
}

/// The count a session's share is cut by is the number of nodes, at every
/// depth and in any `parallel` group, that have not finished: exactly the
/// listed nodes a finished state does not describe.
pub proof fn law_unfinished_counts_exactly_the_unfinished_nodes(nodes: Seq<Node>, ledger: NodeLedger)
    ensures
        unfinished_in(nodes, ledger) == flat_nodes(nodes).filter(|n: Node| !is_finished(state_of(ledger, n.id@))).len(),
        unfinished_in(nodes, ledger) <= flat_nodes(nodes).len(),
        ledger.records@.len() == 0 ==> unfinished_in(nodes, ledger) == flat_nodes(nodes).len(),
{
    lemma_unfinished_in_counts(nodes, ledger);
    let p = not_finished_in(ledger);
    assert(p == |n: Node| !is_finished(state_of(ledger, n.id@)));
    flat_nodes(nodes).lemma_filter_len(p);
    if ledger.records@.len() == 0 {
        assert forall|i: int| 0 <= i < flat_nodes(nodes).len() implies #[trigger] p(flat_nodes(nodes)[i]) by {
            crate::ledger::lemma_find_record_keyed(ledger.records@, flat_nodes(nodes)[i].id@, 0);
        }
        lemma_all_kept(flat_nodes(nodes), p);
    }
}

proof fn lemma_all_kept(s: Seq<Node>, p: spec_fn(Node) -> bool)
    requires
        forall|i: int| 0 <= i < s.len() ==> #[trigger] p(s[i]),
    ensures
        s.filter(p).len() == s.len(),
    decreases s.len(),
{
    if s.len() > 0 {
        lemma_all_kept(s.drop_last(), p);
        s.drop_last().lemma_filter_push(s.last(), p);
        assert(s.drop_last().push(s.last()) =~= s);
    }
}

/// The smaller of `n` and the largest `usize`.
pub open spec fn capped(n: nat) -> usize {
    if n <= usize::MAX { n as usize } else { usize::MAX }
}

/// How many of `nodes`, at every depth, have not finished, counted up to
/// the largest `usize`.
pub fn count_unfinished(nodes: &Vec<Node>, ledger: &NodeLedger) -> (count: usize)
    ensures
        count == capped(unfinished_in(nodes@, *ledger)),
    decreases nodes@, 0int,
{
    let mut count: usize = 0;
    let mut i: usize = 0;
    while i < nodes.len()
        invariant
            i <= nodes@.len(),
            count == capped(unfinished_in(nodes@.take(i as int), *ledger)),
        decreases nodes@.len() - i,
    {
        proof {
            assert(nodes@.take(i + 1).drop_last() =~= nodes@.take(i as int));
            assert(decreases_to!(nodes@ => nodes@[i as int]));
        }
        let here = count_unfinished_node(&nodes[i], ledger);
        count = count.saturating_add(here);
        i = i + 1;
    }
    proof {
        assert(nodes@.take(nodes@.len() as int) =~= nodes@);
    }
    count
}

/// Whether `node` has not finished, and how many of the nodes it holds
/// have not either, counted up to the largest `usize`.
pub fn count_unfinished_node(node: &Node, ledger: &NodeLedger) -> (count: usize)
    ensures
        count == capped(unfinished_node(*node, *ledger)),
    decreases *node, 1int,
{
    let own: usize = match ledger.state(&node.id) {
        Some(NodeState::Finished { .. }) => 0,
        _ => 1,
    };
    match &node.kind {
        NodeKind::Parallel { nodes, .. } => {
            proof {
                assert(decreases_to!(*node => node.kind));
                assert(decreases_to!(node.kind => *nodes));
                assert(decreases_to!(*nodes => nodes@));
            }
            let inner = count_unfinished(nodes, ledger);
            own.saturating_add(inner)
        },
        _ => own,
    }
}

/// The token cap one agent session gets: none when a person lifted the
/// cap for this invocation or the run declares no cap; otherwise an equal
/// share of what remains of the cap among the nodes (at every depth) that
/// have not finished.
pub open spec fn session_cap_spec(lifted: bool, cap: Option<u64>, nodes: Seq<Node>, state: RunState, spent: u64) -> Option<u64> {
    if lifted {
        None
    } else {
        match cap {
            Some(cap) => Some(session_budget_spec(cap, spent, capped(unfinished_in(nodes, state.nodes)))),
            None => None,
        }
    }
}

/// The token cap one agent session gets.
pub fn session_max_tokens(lifted: bool, cap: Option<u64>, nodes: &Vec<Node>, state: &RunState) -> (max_tokens: Option<u64>)
    ensures
        max_tokens == session_cap_spec(lifted, cap, nodes@, *state, saturating(
            crate::replay::tokens_total(state.nodes.records@).input + crate::replay::tokens_total(state.nodes.records@).output,
        )),
{
    if lifted {
        return None;
    }
    match cap {
        Some(cap) => {
            let spent = state.total_tokens().total();
            let open = count_unfinished(nodes, &state.nodes);
            Some(session_token_budget(cap, spent, open))
        },
        None => None,
    }
}

} // verus!
