//! `kind: parallel`: which of a group's children run (again) and with
//! which attempt, and how the children's ends join into the group's under
//! its `join:` policy. Dispatching the children and waiting on them is the
//! caller's.

use vstd::prelude::*;
use vstd::string::StringExecFns;

use crate::ledger::{attempts_of, is_running, state_of, NodeState};
use crate::replay::RunState;
use crate::schedule::{attempts_bounded, is_running_node, next_attempt_exec};
use crate::text::{decimal, decimal_spec};
use crate::workflow::{is_gate_kind, Node, OnInterrupt};

verus! {

/// Whether a child was left running with no terminal and resolves to
/// `on_interrupt: fail_if_uncertain`: its work is not safe to repeat, so
/// it is recorded failed rather than run a second time.
pub open spec fn uncertain_child(child: Node, state: RunState, default_on_interrupt: OnInterrupt) -> bool {
    &&& !is_gate_kind(child.kind)
    &&& is_running(state_of(state.nodes, child.id@))
    &&& match child.on_interrupt {
        Some(own) => own,
        None => default_on_interrupt,
    } == OnInterrupt::FailIfUncertain
}

/// Whether a child stands failed for the group: uncertain, or failed on
/// the log.
pub open spec fn failed_child(child: Node, state: RunState, default_on_interrupt: OnInterrupt) -> bool {
    uncertain_child(child, state, default_on_interrupt) || state_of(state.nodes, child.id@) matches Some(NodeState::Failed { .. })
}

/// The attempt a child is dispatched with, when it is: 1 when it never
/// started, the next one when a stop left it running (the group's restart
/// re-runs its orphan), never when it is terminal or uncertain.
pub open spec fn child_attempt(child: Node, state: RunState, default_on_interrupt: OnInterrupt) -> Option<u32> {
    if uncertain_child(child, state, default_on_interrupt) {
        None
    } else {
        match state_of(state.nodes, child.id@) {
            None => Some(1u32),
            Some(NodeState::Running) => Some((attempts_of(state.nodes, child.id@) + 1) as u32),
            _ => None,
        }
    }
}

/// The ids of the children a predicate keeps, in order.
pub open spec fn ids_where(children: Seq<Node>, keep: spec_fn(Node) -> bool) -> Seq<Seq<char>>
    decreases children.len(),
{
    if children.len() == 0 {
        Seq::empty()
    } else {
        ids_where(children.drop_last(), keep) + if keep(children.last()) { seq![children.last().id@] } else { Seq::empty() }
    }
}

/// The children dispatched, in order, with their attempts.
pub open spec fn dispatched(children: Seq<Node>, state: RunState, default_on_interrupt: OnInterrupt) -> Seq<(Seq<char>, u32)>
    decreases children.len(),
{
    if children.len() == 0 {
        Seq::empty()
    } else {
        dispatched(children.drop_last(), state, default_on_interrupt) + match child_attempt(children.last(), state, default_on_interrupt) {
            Some(attempt) => seq![(children.last().id@, attempt)],
            None => Seq::empty(),
        }
    }
}

/// The first child that already finished, if any.
pub open spec fn first_finished(children: Seq<Node>, state: RunState, from: int) -> Option<Seq<char>>
    decreases children.len() - from,
{
    if from < 0 || from >= children.len() {
        None
    } else if state_of(state.nodes, children[from].id@) matches Some(NodeState::Finished { .. }) {
        Some(children[from].id@)
    } else {
        first_finished(children, state, from + 1)
    }
}

/// What a group does with its children on entry, re-entrant on resume.
#[derive(Debug, Clone, PartialEq, Eq)]
pub struct ParallelPlan {
    /// Children to record failed without running them: uncertain orphans.
    pub uncertain: Vec<String>,
    /// Children that stand failed, uncertain ones included, in order.
    pub failed: Vec<String>,
    /// Children to dispatch, in order, with their attempts.
    pub to_run: Vec<(String, u32)>,
    /// The first child that already finished: under `join: any` the group
    /// closes on it at once, racing nobody.
    pub already_won: Option<String>,
}

/// The sentence an uncertain child is recorded failed with.
pub open spec fn uncertain_failure_spec(child: Seq<char>) -> Seq<char> {
    "`"@ + child + "` was running with no terminal event when the engine last stopped \u{2014} `on_interrupt: fail_if_uncertain` refuses to guess whether it finished; verify manually before resuming"@
}

/// The sentence an uncertain child is recorded failed with.
pub fn uncertain_failure(child: &str) -> (failure: String)
    ensures
        failure@ == uncertain_failure_spec(child@),
{
    let mut text = String::from_str("`");
    text.append(child);
    text.append("` was running with no terminal event when the engine last stopped \u{2014} `on_interrupt: fail_if_uncertain` refuses to guess whether it finished; verify manually before resuming");
    text
}

fn is_uncertain(child: &Node, state: &RunState, default_on_interrupt: OnInterrupt) -> (uncertain: bool)
    ensures
        uncertain == uncertain_child(*child, *state, default_on_interrupt),
{
    let resolved = match child.on_interrupt {
        Some(own) => own,
        None => default_on_interrupt,
    };
    !child.is_gate() && is_running_node(state, &child.id) && match resolved {
        OnInterrupt::FailIfUncertain => true,
        _ => false,
    }
}

/// What a group does with its children on entry: which are uncertain,
/// which stand failed, which run and with which attempt, and which
/// already won.
pub fn plan_parallel(children: &Vec<Node>, state: &RunState, default_on_interrupt: OnInterrupt) -> (plan: ParallelPlan)
    requires
        attempts_bounded(*state),
    ensures
        plan.uncertain@.map_values(|s: String| s@)
            == ids_where(children@, |c: Node| uncertain_child(c, *state, default_on_interrupt)),
        plan.failed@.map_values(|s: String| s@)
            == ids_where(children@, |c: Node| failed_child(c, *state, default_on_interrupt)),
        plan.to_run@.map_values(|e: (String, u32)| (e.0@, e.1)) == dispatched(children@, *state, default_on_interrupt),
        match plan.already_won {
            Some(id) => first_finished(children@, *state, 0) == Some(id@),
            None => first_finished(children@, *state, 0) is None,
        },
{
    let ghost unc = |c: Node| uncertain_child(c, *state, default_on_interrupt);
    let ghost fail = |c: Node| failed_child(c, *state, default_on_interrupt);
    let mut uncertain: Vec<String> = Vec::new();
    let mut failed: Vec<String> = Vec::new();
    let mut to_run: Vec<(String, u32)> = Vec::new();
    let mut already_won: Option<String> = None;
    let mut i: usize = 0;
    while i < children.len()
        invariant
            i <= children@.len(),
            attempts_bounded(*state),
            unc == (|c: Node| uncertain_child(c, *state, default_on_interrupt)),
            fail == (|c: Node| failed_child(c, *state, default_on_interrupt)),
            uncertain@.map_values(|s: String| s@) == ids_where(children@.take(i as int), unc),
            failed@.map_values(|s: String| s@) == ids_where(children@.take(i as int), fail),
            to_run@.map_values(|e: (String, u32)| (e.0@, e.1)) == dispatched(children@.take(i as int), *state, default_on_interrupt),
            match already_won {
                Some(id) => first_finished(children@, *state, 0) == Some(id@),
                None => first_finished(children@, *state, 0) == first_finished(children@, *state, i as int),
            },
        decreases children@.len() - i,
    {
        let child = &children[i];
        proof {
            assert(children@.take(i + 1).drop_last() =~= children@.take(i as int));
            assert(children@.take(i + 1).last() == children@[i as int]);
        }
        let u = is_uncertain(child, state, default_on_interrupt);
        let ghost pu = uncertain@;
        let ghost pf = failed@;
        let ghost pr = to_run@;
        if u {
            uncertain.push(child.id.clone());
        }
        let state_now = state.nodes.state(&child.id);
        let is_failed = match state_now {
            Some(NodeState::Failed { .. }) => true,
            _ => false,
        };
        if u || is_failed {
            failed.push(child.id.clone());
        }
        if !u {
            match state_now {
                None => {
                    to_run.push((child.id.clone(), 1));
                },
                Some(NodeState::Running) => {
                    let attempt = next_attempt_exec(state, &child.id);
                    to_run.push((child.id.clone(), attempt));
                },
                _ => {},
            }
        }
        match already_won {
            Some(_) => {},
            None => {
                match state_now {
                    Some(NodeState::Finished { .. }) => {
                        already_won = Some(child.id.clone());
                    },
                    _ => {},
                }
            },
        }
        proof {
            assert(uncertain@.map_values(|s: String| s@) =~= ids_where(children@.take(i + 1), unc));
            assert(failed@.map_values(|s: String| s@) =~= ids_where(children@.take(i + 1), fail));
            assert(to_run@.map_values(|e: (String, u32)| (e.0@, e.1)) =~= dispatched(children@.take(i + 1), *state, default_on_interrupt));
        }
        i = i + 1;
    }
    proof {
        assert(children@.take(children@.len() as int) =~= children@);
    }
    ParallelPlan { uncertain, failed, to_run, already_won }
}

/// How a child ended, as its dispatch reported it.
#[derive(Debug, Clone, PartialEq, Eq)]
pub enum ChildEnd {
    Finished,
    Failed,
    /// The run's own cancellation cut it mid-flight.
    Interrupted,
    /// Its child run paused on its own log.
    ChildPaused { node: String, reason: String },
    /// It handed questions over, which a node inside a group never may.
    Asked,
}

/// How a group ends.
#[derive(Debug, Clone, PartialEq, Eq)]
pub enum GroupEnd {
    /// The group closes with this outcome.
    Close { outcome: String },
    /// The group fails with this failure.
    Fail { failure: String },
    /// The run is stopping: no terminal, resume re-enters the group.
    Interrupted,
    /// A child run paused: the group stays open and the run pauses.
    ChildPaused { node: String, reason: String },
    /// The workflow broke a rule `check` enforces.
    Broken { diagnostic: String },
}

/// The diagnostic of a child that asked inside a group.
pub open spec fn asked_spec(child: Seq<char>, group: Seq<char>) -> Seq<char> {
    "child `"@ + child + "` of parallel group `"@ + group + "` handed questions over \u{2014} a node inside a group is never asked; `check` refuses this workflow"@
}

fn asked_diagnostic(child: &String, group: &String) -> (diagnostic: String)
    ensures
        diagnostic@ == asked_spec(child@, group@),
{
    let mut text = String::from_str("child `");
    text.append(child.as_str());
    text.append("` of parallel group `");
    text.append(group.as_str());
    text.append("` handed questions over \u{2014} a node inside a group is never asked; `check` refuses this workflow");
    text
}

/// The failure of a group under `join: all` because of `child`.
pub open spec fn all_failure_spec(child: Seq<char>) -> Seq<char> {
    "child `"@ + child + "` failed under join: all"@
}

fn all_failure(child: &String) -> (failure: String)
    ensures
        failure@ == all_failure_spec(child@),
{
    let mut text = String::from_str("child `");
    text.append(child.as_str());
    text.append("` failed under join: all");
    text
}

/// The first position at or after `from` whose end is `Asked`.
pub open spec fn first_asked(ends: Seq<(String, ChildEnd)>, from: int) -> Option<int>
    decreases ends.len() - from,
{
    if from < 0 || from >= ends.len() { None } else if ends[from].1 is Asked { Some(from) } else { first_asked(ends, from + 1) }
}

/// The first position at or after `from` whose end is a paused child run.
pub open spec fn first_paused(ends: Seq<(String, ChildEnd)>, from: int) -> Option<int>
    decreases ends.len() - from,
{
    if from < 0 || from >= ends.len() { None } else if ends[from].1 is ChildPaused { Some(from) } else { first_paused(ends, from + 1) }
}

/// The first position at or after `from` whose end is a failure.
pub open spec fn first_failed(ends: Seq<(String, ChildEnd)>, from: int) -> Option<int>
    decreases ends.len() - from,
{
    if from < 0 || from >= ends.len() { None } else if ends[from].1 is Failed { Some(from) } else { first_failed(ends, from + 1) }
}

/// How a `join: all` group ends once every dispatched child ended, in
/// dispatch order: a child that asked breaks the run; a stopping run
/// leaves the group open; a paused child run pauses it; a failed child
/// fails it; otherwise it closes over all its children.
pub open spec fn join_all_ends(group: Seq<char>, children: nat, ends: Seq<(String, ChildEnd)>, end: GroupEnd) -> bool {
    match first_asked(ends, 0) {
        Some(k) => end matches GroupEnd::Broken { diagnostic } && diagnostic@ == asked_spec(ends[k].0@, group),
        None => if exists|k: int| 0 <= k < ends.len() && #[trigger] ends[k].1 is Interrupted {
            end is Interrupted
        } else {
            match first_paused(ends, 0) {
                Some(k) => end matches GroupEnd::ChildPaused { node, reason }
                    && ends[k].1 matches ChildEnd::ChildPaused { node: n, reason: r } && node@ == n@ && reason@ == r@,
                None => match first_failed(ends, 0) {
                    Some(k) => end matches GroupEnd::Fail { failure } && failure@ == all_failure_spec(ends[k].0@),
                    None => end matches GroupEnd::Close { outcome } && outcome@ == decimal_spec(children) + " child(ren) finished"@,
                },
            }
        },
    }
}

fn find_end(ends: &Vec<(String, ChildEnd)>, which: u8) -> (found: Option<usize>)
    requires
        which < 3,
    ensures
        found matches Some(k) ==> k < ends@.len(),
        found matches Some(k) ==> (which == 0 ==> ends@[k as int].1 is Asked) && (which == 1 ==> ends@[k as int].1 is ChildPaused)
            && (which == 2 ==> ends@[k as int].1 is Failed),
        which == 0 ==> match found {
            Some(k) => first_asked(ends@, 0) == Some(k as int),
            None => first_asked(ends@, 0) is None,
        },
        which == 1 ==> match found {
            Some(k) => first_paused(ends@, 0) == Some(k as int),
            None => first_paused(ends@, 0) is None,
        },
        which == 2 ==> match found {
            Some(k) => first_failed(ends@, 0) == Some(k as int),
            None => first_failed(ends@, 0) is None,
        },
{
    let mut k: usize = 0;
    while k < ends.len()
        invariant
            which < 3,
            k <= ends@.len(),
            which == 0 ==> first_asked(ends@, 0) == first_asked(ends@, k as int),
            which == 1 ==> first_paused(ends@, 0) == first_paused(ends@, k as int),
            which == 2 ==> first_failed(ends@, 0) == first_failed(ends@, k as int),
        decreases ends@.len() - k,
    {
        let hit = match &ends[k].1 {
            ChildEnd::Asked => which == 0,
            ChildEnd::ChildPaused { .. } => which == 1,
            ChildEnd::Failed => which == 2,
            _ => false,
        };
        if hit {
            return Some(k);
        }
        k = k + 1;
    }
    None
}

/// How a `join: all` group ends once every dispatched child ended.
pub fn join_all(group: &String, children: usize, ends: &Vec<(String, ChildEnd)>) -> (end: GroupEnd)
    ensures
        join_all_ends(group@, children as nat, ends@, end),
{
    if let Some(k) = find_end(ends, 0) {
        return GroupEnd::Broken { diagnostic: asked_diagnostic(&ends[k].0, group) };
    }
    let mut k: usize = 0;
    while k < ends.len()
        invariant
            k <= ends@.len(),
            first_asked(ends@, 0) is None,
            forall|t: int| 0 <= t < k ==> !(#[trigger] ends@[t].1 is Interrupted),
        decreases ends@.len() - k,
    {
        if let ChildEnd::Interrupted = &ends[k].1 {
            proof {
                assert(ends@[k as int].1 is Interrupted);
            }
            return GroupEnd::Interrupted;
        }
        k = k + 1;
    }
    if let Some(k) = find_end(ends, 1) {
        match &ends[k].1 {
            ChildEnd::ChildPaused { node, reason } => {
                return GroupEnd::ChildPaused { node: node.clone(), reason: reason.clone() };
            },
            _ => {},
        }
    }
    if let Some(k) = find_end(ends, 2) {
        return GroupEnd::Fail { failure: all_failure(&ends[k].0) };
    }
    let mut outcome = decimal(children as u64);
    outcome.append(" child(ren) finished");
    GroupEnd::Close { outcome }
}

/// Where a `join: any` race stands: the children that failed so far (the
/// group's failed ones included), and the first child run that paused.
#[derive(Debug, Clone, PartialEq, Eq)]
pub struct Race {
    pub failures: usize,
    pub paused: Option<(String, String)>,
}

/// What one child's end does to a `join: any` race: it goes on, or the
/// group ends now (the first to finish wins and the others are
/// interrupted; a stopping run or a child that asked ends the race).
#[derive(Debug, Clone, PartialEq, Eq)]
pub enum RaceStep {
    Continue(Race),
    Decided(GroupEnd),
}

/// The close of a group a child won.
pub open spec fn won_spec(child: Seq<char>) -> Seq<char> {
    "`"@ + child + "` succeeded first"@
}

/// How a group closes on the child that won it.
pub fn won_by(child: &String) -> (end: GroupEnd)
    ensures
        end matches GroupEnd::Close { outcome } && outcome@ == won_spec(child@),
{
    let mut outcome = String::from_str("`");
    outcome.append(child.as_str());
    outcome.append("` succeeded first");
    GroupEnd::Close { outcome }
}

/// A race that has seen nothing yet, beyond the children already failed.
pub fn race_start(already_failed: usize) -> (race: Race)
    ensures
        race.failures == already_failed,
        race.paused is None,
{
    Race { failures: already_failed, paused: None }
}

/// What one child's end does to a `join: any` race.
pub fn race_step(group: &String, race: Race, child: &String, end: &ChildEnd) -> (step: RaceStep)
    requires
        race.failures < usize::MAX,
    ensures
        match *end {
            ChildEnd::Finished => step matches RaceStep::Decided(GroupEnd::Close { outcome }) && outcome@ == won_spec(child@),
            ChildEnd::Failed => step matches RaceStep::Continue(next) && next.failures == race.failures + 1 && next.paused == race.paused,
            ChildEnd::Interrupted => step == RaceStep::Decided(GroupEnd::Interrupted),
            ChildEnd::ChildPaused { node, reason } => step matches RaceStep::Continue(next) && next.failures == race.failures
                && match race.paused {
                    Some(p) => next.paused == Some(p),
                    None => next.paused matches Some((n, r)) && n@ == node@ && r@ == reason@,
                },
            ChildEnd::Asked => step matches RaceStep::Decided(GroupEnd::Broken { diagnostic }) && diagnostic@ == asked_spec(child@, group@),
        },
{
    match end {
        ChildEnd::Finished => RaceStep::Decided(won_by(child)),
        ChildEnd::Failed => RaceStep::Continue(Race { failures: race.failures + 1, paused: race.paused }),
        ChildEnd::Interrupted => RaceStep::Decided(GroupEnd::Interrupted),
        ChildEnd::ChildPaused { node, reason } => {
            let paused = match race.paused {
                Some(p) => Some(p),
                None => Some((node.clone(), reason.clone())),
            };
            RaceStep::Continue(Race { failures: race.failures, paused })
        },
        ChildEnd::Asked => RaceStep::Decided(GroupEnd::Broken { diagnostic: asked_diagnostic(child, group) }),
    }
}

/// The failure of a `join: any` group no child won.
pub open spec fn none_won_spec(failures: nat) -> Seq<char> {
    "join: any \u{2014} no child succeeded ("@ + decimal_spec(failures) + " failed)"@
}

/// How a `join: any` group ends when every child ended and none won: a
/// paused child run keeps the group open, and the run pauses; otherwise
/// the group fails.
pub fn race_end(race: Race) -> (end: GroupEnd)
    ensures
        match race.paused {
            Some((node, reason)) => end == GroupEnd::ChildPaused { node, reason },
            None => end matches GroupEnd::Fail { failure } && failure@ == none_won_spec(race.failures as nat),
        },
{
    match race.paused {
        Some((node, reason)) => GroupEnd::ChildPaused { node, reason },
        None => {
            let mut failure = String::from_str("join: any \u{2014} no child succeeded (");
            let n = decimal(race.failures as u64);
            failure.append(n.as_str());
            failure.append(" failed)");
            GroupEnd::Fail { failure }
        },
    }
}

/// Re-entrant on resume: a child the log holds terminal (finished or
/// failed) is never dispatched again, and an uncertain orphan is never
/// run a second time.
pub proof fn law_a_terminal_child_is_never_dispatched(child: Node, state: RunState, default_on_interrupt: OnInterrupt)
    ensures
        (state_of(state.nodes, child.id@) matches Some(NodeState::Finished { .. })) ==> child_attempt(child, state, default_on_interrupt) is None,
        (state_of(state.nodes, child.id@) matches Some(NodeState::Failed { .. })) ==> child_attempt(child, state, default_on_interrupt) is None,
        uncertain_child(child, state, default_on_interrupt) ==> child_attempt(child, state, default_on_interrupt) is None
            && failed_child(child, state, default_on_interrupt),
{
}

} // verus!
