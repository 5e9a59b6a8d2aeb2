//! The escalation object, built once and shared: what a person is asked,
//! on what record, and the options they choose among.

use vstd::prelude::*;
use vstd::string::StringExecFns;

use crate::ledger::Failure;
use crate::reserved::{self, parse_spec, spelling, ReservedOption};
use crate::ledger::GateResolution;
use crate::replay::{derive_spec, pre_seeded_spec, RunState};
use crate::schedule::{self, decide, decide_spec, next_mode_spec, DecisionV, Policy, attempts_bounded};
use crate::text::{decimal, decimal_spec, same_text, texts};
use crate::workflow::{last_node_index, GateRoute, NodeKind, Workflow};

verus! {

/// One option an escalation offers.
#[derive(Debug, Clone, PartialEq, Eq)]
pub struct GateOption {
    pub id: String,
    pub label: String,
    pub tradeoff: String,
}

/// One line of the record an escalation shows.
#[derive(Debug, Clone, PartialEq, Eq)]
pub enum Fact {
    Labelled { label: String, value: String },
    Bare { text: String },
}

/// What a person is asked: the claim, the record behind it, and at least
/// one option, no two with the same id.
#[derive(Debug, Clone, PartialEq, Eq)]
pub struct Escalation {
    pub claim: String,
    pub facts: Vec<Fact>,
    pub options: Vec<GateOption>,
}

/// Why an escalation could not be built.
#[derive(Debug, Clone, PartialEq, Eq)]
pub enum EscalationError {
    /// Two options share an id, so an answer could not say which was meant.
    DuplicateOption { id: String },
}

/// The ids of a list of options.
pub open spec fn option_ids(options: Seq<GateOption>) -> Seq<Seq<char>> {
    options.map_values(|o: GateOption| o.id@)
}

impl Escalation {
    /// An escalation offering `first` and then `rest`; refused when two
    /// options share an id.
    pub fn new(claim: String, facts: Vec<Fact>, first: GateOption, rest: Vec<GateOption>) -> (built: Result<Escalation, EscalationError>)
        ensures
            built matches Ok(e) ==> e.claim == claim && e.facts@ == facts@ && e.options@ == seq![first] + rest@,
            built is Ok <==> option_ids(seq![first] + rest@).no_duplicates(),
    {
        let mut options: Vec<GateOption> = Vec::new();
        options.push(first);
        let mut i: usize = 0;
        while i < rest.len()
            invariant
                i <= rest@.len(),
                options@ == seq![first] + rest@.subrange(0, i as int),
            decreases rest@.len() - i,
        {
            options.push(rest[i].clone_option());
            proof { assert(options@ =~= seq![first] + rest@.subrange(0, i + 1)); }
            i = i + 1;
        }
        proof { assert(rest@.subrange(0, rest@.len() as int) =~= rest@); }
        let ghost ids = option_ids(options@);
        let mut a: usize = 0;
        while a < options.len()
            invariant
                a <= options@.len(),
                ids == option_ids(options@),
                options@ == seq![first] + rest@,
                forall|x: int, y: int| 0 <= x < a && 0 <= y < options@.len() && x != y ==> ids[x] != ids[y],
            decreases options@.len() - a,
        {
            let mut b: usize = 0;
            while b < options.len()
                invariant
                    a < options@.len(),
                    b <= options@.len(),
                    ids == option_ids(options@),
                    options@ == seq![first] + rest@,
                    forall|x: int, y: int| 0 <= x < a && 0 <= y < options@.len() && x != y ==> ids[x] != ids[y],
                    forall|y: int| 0 <= y < b && a != y ==> ids[a as int] != ids[y],
                decreases options@.len() - b,
            {
                if a != b && same_text(&options[a].id, &options[b].id) {
                    proof {
                        assert(ids[a as int] == options@[a as int].id@);
                        assert(ids[b as int] == options@[b as int].id@);
                        assert(ids[a as int] == ids[b as int]);
                        assert(!ids.no_duplicates());
                    }
                    return Err(EscalationError::DuplicateOption { id: options[a].id.clone() });
                }
                b = b + 1;
            }
            a = a + 1;
        }
        Ok(Escalation { claim, facts, options })
    }
}

impl GateOption {
    /// The same option, owned.
    pub fn clone_option(&self) -> (copy: GateOption)
        ensures
            copy == *self,
    {
        GateOption { id: self.id.clone(), label: self.label.clone(), tradeoff: self.tradeoff.clone() }
    }
}

/// The claim of an escalation over exhausted re-routes.
pub open spec fn reroute_claim(node: Seq<char>, goto: Seq<char>, max_reroutes: u32) -> Seq<char> {
    "node `"@ + node + "` failed and its "@ + decimal_spec(max_reroutes as nat) + " re-route(s) to `"@ + goto
        + "` are exhausted"@
}

/// What a person is asked about a node whose re-routes are exhausted:
/// the claim, the failure as its one fact, and the options to retry once
/// more, to abort, and, when `modes:` has somewhere later to go, to
/// promote.
pub open spec fn reroute_escalation_spec(
    workflow: Workflow,
    mode_name: Seq<char>,
    node: Seq<char>,
    goto: Seq<char>,
    max_reroutes: u32,
    cause: Seq<char>,
    e: Escalation,
) -> bool {
    &&& e.claim@ == reroute_claim(node, goto, max_reroutes)
    &&& e.facts@.len() == 1
    &&& e.facts@[0] matches Fact::Bare { text } && text@ == cause
    &&& e.options@.len() == if next_mode_spec(workflow, mode_name) is Some { 3int } else { 2int }
    &&& e.options@[0].id@ == spelling(ReservedOption::Retry)
    &&& e.options@[0].label@ == reserved::retry_label(goto)
    &&& e.options@[0].tradeoff@ == reserved::retry_tradeoff(goto, max_reroutes)
    &&& e.options@[1].id@ == spelling(ReservedOption::Abort)
    &&& next_mode_spec(workflow, mode_name) matches Some(next) ==> {
            &&& e.options@[2].id@ == spelling(ReservedOption::Promote)
            &&& e.options@[2].label@ == reserved::promote_label(next)
            &&& e.options@[2].tradeoff@ == reserved::promote_tradeoff(next, mode_name)
        }
}

/// The escalation object for a node whose re-routes are exhausted: retry
/// once more, abort, or — when `modes:` has somewhere later to go —
/// promote.
pub fn build_reroute_escalation(
    workflow: &Workflow,
    mode_name: &String,
    node: &String,
    goto: &String,
    max_reroutes: u32,
    cause: &Failure,
) -> (built: Result<Escalation, EscalationError>)
    ensures
        built matches Ok(e) && reroute_escalation_spec(*workflow, mode_name@, node@, goto@, max_reroutes, cause.message@, e),
        built matches Ok(e) && ({
            &&& e.claim@ == reroute_claim(node@, goto@, max_reroutes)
            &&& e.facts@ == seq![Fact::Bare { text: cause.message }]
            &&& e.options@.len() == if next_mode_spec(*workflow, mode_name@) is Some { 3int } else { 2int }
            &&& e.options@[0].id@ == spelling(ReservedOption::Retry)
            &&& e.options@[0].label@ == reserved::retry_label(goto@)
            &&& e.options@[0].tradeoff@ == reserved::retry_tradeoff(goto@, max_reroutes)
            &&& e.options@[1].id@ == spelling(ReservedOption::Abort)
            &&& next_mode_spec(*workflow, mode_name@) matches Some(next) ==> {
                    &&& e.options@[2].id@ == spelling(ReservedOption::Promote)
                    &&& e.options@[2].label@ == reserved::promote_label(next)
                    &&& e.options@[2].tradeoff@ == reserved::promote_tradeoff(next, mode_name@)
                }
        }),
{
    let suggested_mode = schedule::next_mode_after(workflow, mode_name);
    let retry = reserved::retry(goto.as_str(), max_reroutes);
    let mut rest: Vec<GateOption> = Vec::new();
    rest.push(reserved::abort());
    if let Some(next_mode) = &suggested_mode {
        rest.push(reserved::promote(next_mode.as_str(), mode_name.as_str()));
    }
    let mut claim = String::from_str("node `");
    claim.append(node.as_str());
    claim.append("` failed and its ");
    let count = decimal(max_reroutes as u64);
    claim.append(count.as_str());
    claim.append(" re-route(s) to `");
    claim.append(goto.as_str());
    claim.append("` are exhausted");
    let mut facts: Vec<Fact> = Vec::new();
    facts.push(Fact::Bare { text: cause.message.clone() });
    proof {
        reveal_strlit("retry");
        reveal_strlit("abort");
        reveal_strlit("promote");
        let ids = option_ids(seq![retry] + rest@);
        assert(ids[0] == "retry"@);
        assert(ids[1] == "abort"@);
        assert(ids[0] != ids[1]) by { assert(ids[0][1] != ids[1][1]); }
        if rest@.len() == 2 {
            assert(ids[2] == "promote"@);
            assert(ids[0] != ids[2]) by { assert(ids[0][0] != ids[2][0]); }
            assert(ids[1] != ids[2]) by { assert(ids[1][0] != ids[2][0]); }
        }
        assert(ids.no_duplicates());
        assert(facts@ =~= seq![Fact::Bare { text: cause.message }]);
    }
    Escalation::new(claim, facts, retry, rest)
}

/// The first route declared for `option`, if any.
pub open spec fn route_for(on: Seq<GateRoute>, option: Seq<char>, from: int) -> Option<int>
    decreases on.len() - from,
{
    if from < 0 || from >= on.len() {
        None
    } else if on[from].option@ == option {
        Some(from)
    } else {
        route_for(on, option, from + 1)
    }
}

fn find_route<'a>(on: &'a Vec<GateRoute>, option: &String) -> (target: Option<&'a String>)
    ensures
        target matches Some(t) ==> route_for(on@, option@, 0) matches Some(i) && on@[i].target == *t,
        target is None ==> route_for(on@, option@, 0) is None,
{
    let mut i: usize = 0;
    while i < on.len()
        invariant
            i <= on@.len(),
            route_for(on@, option@, 0) == route_for(on@, option@, i as int),
        decreases on@.len() - i,
    {
        if same_text(&on[i].option, option) {
            return Some(&on[i].target);
        }
        i = i + 1;
    }
    None
}

/// The option ids an internal gate offers of its own: what it declares,
/// or a single `approve`.
pub open spec fn declared_ids(options: Seq<String>) -> Seq<Seq<char>> {
    if options.len() == 0 { seq![spelling(ReservedOption::Approve)] } else { texts(options) }
}

/// The claim of an internal gate.
pub open spec fn gate_claim(node: Seq<char>, message: Option<Seq<char>>) -> Seq<char> {
    match message {
        Some(m) => m,
        None => "gate `"@ + node + "` needs a decision"@,
    }
}

/// Every option id an internal gate's escalation offers: its declared
/// ones, then the engine's own `abort` unless the author claimed it.
pub open spec fn internal_gate_ids(options: Seq<String>) -> Seq<Seq<char>> {
    let declared = declared_ids(options);
    if forall|k: int| 0 <= k < declared.len() ==> parse_spec(#[trigger] declared[k]) != Some(ReservedOption::Abort) {
        declared.push(spelling(ReservedOption::Abort))
    } else {
        declared
    }
}

/// What a person is asked at an internal gate: its message (or a default
/// claim), its assignee as the one fact, and its options, each declared
/// one with the tradeoff its own `on:` route gives it.
pub open spec fn internal_gate_spec(
    node: Seq<char>,
    assignee: Seq<char>,
    message: Option<Seq<char>>,
    options: Seq<String>,
    on: Seq<GateRoute>,
    e: Escalation,
) -> bool {
    let declared = declared_ids(options);
    &&& e.claim@ == gate_claim(node, message)
    &&& e.facts@.len() == 1
    &&& e.facts@[0] matches Fact::Labelled { label, value } && label@ == "assignee"@ && value@ == assignee
    &&& option_ids(e.options@) == internal_gate_ids(options)
    &&& forall|k: int| 0 <= k < declared.len() ==> (#[trigger] e.options@[k]).label@ == declared[k]
            && e.options@[k].tradeoff@ == reserved::declared_tradeoff(match route_for(on, declared[k], 0) {
                Some(r) => Some(on[r].target@),
                None => None,
            })
}

/// The escalation object for an unresolved internal gate: its declared
/// options (default: a single `approve`), each with a tradeoff derived from
/// its own `on:` mapping, plus the engine's own `abort` unless the author
/// already claimed that id.
#[verifier::loop_isolation(false)]
pub fn build_internal_gate_escalation(
    node: &String,
    assignee: &String,
    message: Option<&String>,
    options: &Vec<String>,
    on: &Vec<GateRoute>,
) -> (built: Result<Escalation, EscalationError>)
    ensures
        built is Ok <==> internal_gate_ids(options@).no_duplicates(),
        built matches Ok(e) ==> internal_gate_spec(node@, assignee@, match message {
            Some(m) => Some(m@),
            None => None,
        }, options@, on@, e),
        ({
            let declared = declared_ids(options@);
            let engine_abort = forall|k: int| 0 <= k < declared.len() ==> parse_spec(#[trigger] declared[k]) != Some(ReservedOption::Abort);
            let all_ids = if engine_abort { declared.push(spelling(ReservedOption::Abort)) } else { declared };
            &&& built is Ok <==> all_ids.no_duplicates()
            &&& built matches Ok(e) ==> {
                &&& e.claim@ == gate_claim(node@, match message { Some(m) => Some(m@), None => None })
                &&& e.facts@.len() == 1
                &&& e.facts@[0] matches Fact::Labelled { label, value } && label@ == "assignee"@ && value@ == assignee@
                &&& option_ids(e.options@) == all_ids
                &&& forall|k: int| 0 <= k < declared.len() ==> (#[trigger] e.options@[k]).label@ == declared[k]
                        && e.options@[k].tradeoff@ == reserved::declared_tradeoff(match route_for(on@, declared[k], 0) {
                            Some(r) => Some(on@[r].target@),
                            None => None,
                        })
            }
        }),
{
    let mut declared: Vec<String> = Vec::new();
    if options.len() == 0 {
        declared.push(ReservedOption::Approve.id());
        proof { assert(texts(declared@) =~= declared_ids(options@)); }
    } else {
        declared = crate::text::copy_strings(options);
    }
    let ghost dv = declared_ids(options@);
    assert(texts(declared@) == dv);
    let mut gate_options: Vec<GateOption> = Vec::new();
    let mut engine_abort = true;
    let mut i: usize = 0;
    while i < declared.len()
        invariant
            i <= declared@.len(),
            texts(declared@) == dv,
            gate_options@.len() == i,
            option_ids(gate_options@) == dv.subrange(0, i as int),
            engine_abort == forall|k: int| 0 <= k < i ==> parse_spec(#[trigger] dv[k]) != Some(ReservedOption::Abort),
            forall|k: int| 0 <= k < i ==> (#[trigger] gate_options@[k]).label@ == dv[k]
                && gate_options@[k].tradeoff@ == reserved::declared_tradeoff(match route_for(on@, dv[k], 0) {
                    Some(r) => Some(on@[r].target@),
                    None => None,
                }),
        decreases declared@.len() - i,
    {
        let id = &declared[i];
        proof { assert(dv[i as int] == id@); }
        let offered = reserved::declared(id, find_route(on, id));
        gate_options.push(offered);
        if matches!(ReservedOption::of(id.as_str()), Some(ReservedOption::Abort)) {
            engine_abort = false;
        }
        proof {
            assert(option_ids(gate_options@) =~= dv.subrange(0, i + 1));
        }
        i = i + 1;
    }
    proof { assert(dv.subrange(0, dv.len() as int) =~= dv); }
    if engine_abort {
        gate_options.push(reserved::abort());
        proof { assert(option_ids(gate_options@) =~= dv.push(spelling(ReservedOption::Abort))); }
    }
    let claim = match message {
        Some(m) => m.clone(),
        None => {
            let mut text = String::from_str("gate `");
            text.append(node.as_str());
            text.append("` needs a decision");
            text
        },
    };
    let mut facts: Vec<Fact> = Vec::new();
    facts.push(Fact::Labelled { label: String::from_str("assignee"), value: assignee.clone() });
    let ghost before = gate_options@;
    assert(before.len() > 0);
    let first = gate_options.remove(0);
    proof {
        assert(seq![first] + gate_options@ =~= before);
    }
    Escalation::new(claim, facts, first, gate_options)
}

/// The escalation a paused run waits on, by the decision the scheduler
/// reaches: over exhausted re-routes, the re-route escalation; at an
/// internal gate (the last node of that id, a gate not published to a
/// forge), that gate's escalation when its option ids are distinct; for
/// every other decision, none.
pub open spec fn current_spec(workflow: Workflow, state: RunState, policy: Policy, mode_name: Seq<char>, current: Option<(String, Escalation)>) -> bool {
    match decide_spec(workflow, state, policy) {
        DecisionV::GateExhaustedReroutes { node, goto, max_reroutes, cause } => current matches Some((n, e)) && n@ == node
            && reroute_escalation_spec(workflow, mode_name, node, goto, max_reroutes, cause, e),
        DecisionV::ResolveInternalGate { node } => match last_node_index(workflow.nodes@, node) {
            Some(i) => match workflow.nodes@[i].kind {
                NodeKind::Gate { assignee, message, options, on, external } => if !external {
                    if internal_gate_ids(options@).no_duplicates() {
                        current matches Some((n, e)) && n@ == node && internal_gate_spec(node, assignee@, match message {
                            Some(m) => Some(m@),
                            None => None,
                        }, options@, on@, e)
                    } else {
                        current is None
                    }
                } else {
                    current is None
                },
                _ => current is None,
            },
            None => current is None,
        },
        _ => current is None,
    }
}

/// Reconstructs the escalation a paused run is currently waiting on,
/// purely from its workflow, policy and derived state: `decide` is pure,
/// so asking it again about the same state reaches the same exhausted
/// re-route or internal gate the paused invocation saw. The node the
/// decision belongs to comes with it. `None` for every other decision,
/// and for an escalation that cannot be built.
pub fn current_escalation(workflow: &Workflow, state: &RunState, policy: &Policy, mode_name: &String) -> (current: Option<(String, Escalation)>)
    requires
        attempts_bounded(*state),
    ensures
        current_spec(*workflow, *state, *policy, mode_name@, current),
{
    match decide(workflow, state, policy) {
        schedule::Decision::GateExhaustedReroutes { node, goto, max_reroutes, cause } => {
            match build_reroute_escalation(workflow, mode_name, &node, &goto, max_reroutes, &cause) {
                Ok(escalation) => Some((node, escalation)),
                Err(_) => None,
            }
        },
        schedule::Decision::ResolveInternalGate { node } => {
            let index = match crate::workflow::find_node_index(&workflow.nodes, &node) {
                Some(index) => index,
                None => return None,
            };
            proof { crate::workflow::lemma_last_node_index(workflow.nodes@, node@); }
            match &workflow.nodes[index].kind {
                NodeKind::Gate { assignee, message, options, on, external: false } => {
                    match build_internal_gate_escalation(&node, assignee, message.as_ref(), options, on) {
                        Ok(escalation) => Some((node, escalation)),
                        Err(_) => None,
                    }
                },
                _ => None,
            }
        },
        _ => None,
    }
}

impl Escalation {
    /// Whether the escalation offers an option spelled `option`.
    pub fn offers(&self, option: &String) -> (offered: bool)
        ensures
            offered == option_ids(self.options@).contains(option@),
    {
        let mut i: usize = 0;
        while i < self.options.len()
            invariant
                i <= self.options@.len(),
                forall|k: int| 0 <= k < i ==> #[trigger] option_ids(self.options@)[k] != option@,
            decreases self.options@.len() - i,
        {
            if same_text(&self.options[i].id, option) {
                proof { assert(option_ids(self.options@)[i as int] == option@); }
                return true;
            }
            i = i + 1;
        }
        false
    }

    /// The ids on offer, as a reader is told them: each in backticks,
    /// separated by commas.
    pub fn menu(&self) -> (menu: String)
        ensures
            menu@ == crate::render::join_spec(option_ids(self.options@).map_values(|id: Seq<char>| "`"@ + id + "`"@), ", "@),
    {
        let mut quoted: Vec<String> = Vec::new();
        let mut i: usize = 0;
        while i < self.options.len()
            invariant
                i <= self.options@.len(),
                texts(quoted@) == option_ids(self.options@).take(i as int).map_values(|id: Seq<char>| "`"@ + id + "`"@),
            decreases self.options@.len() - i,
        {
            let mut item = String::from_str("`");
            item.append(self.options[i].id.as_str());
            item.append("`");
            let ghost before = texts(quoted@);
            quoted.push(item);
            proof {
                assert(texts(quoted@) =~= before.push("`"@ + self.options@[i as int].id@ + "`"@));
                assert(option_ids(self.options@).take(i + 1).map_values(|id: Seq<char>| "`"@ + id + "`"@)
                    =~= option_ids(self.options@).take(i as int).map_values(|id: Seq<char>| "`"@ + id + "`"@).push("`"@ + self.options@[i as int].id@ + "`"@));
            }
            i = i + 1;
        }
        proof { assert(option_ids(self.options@).take(i as int) =~= option_ids(self.options@)); }
        crate::render::join(&quoted, ", ")
    }
}

/// Why a decision could not be recorded for a parked run.
#[derive(Debug, Clone, PartialEq, Eq)]
pub enum ResolveGateError {
    /// The run is not parked at a pause: a live process may still be
    /// driving it, or it already finished.
    NotPaused,
    /// The run is paused for a reason with no menu of options.
    NothingToResolve,
    /// The option chosen is not on the escalation's menu.
    UnknownOption { chosen: String, declared: String },
}

/// Whether the log's last event is the run's pause.
pub open spec fn parked(events: Seq<crate::events::StoredEvent>) -> bool {
    events.len() > 0 && events.last().body == crate::events::EventBody::Known(crate::events::EventPayload::RunPaused)
}

/// What answering a parked run's escalation records: the escalation the
/// person saw and their choice, against the node the decision belongs to
/// — only the decision; the next wake applies its consequence. Refused
/// when the run is not parked, when it waits on no menu (a node that ran
/// out of attempt numbers has none either), or when the choice is not on
/// the menu.
pub fn answer_parked_gate(
    workflow: &Workflow,
    events: &Vec<crate::events::StoredEvent>,
    policy: &Policy,
    mode_name: &String,
    chosen: &String,
) -> (answer: Result<(String, Escalation), ResolveGateError>)
    ensures
        !parked(events@) ==> answer == Err::<(String, Escalation), ResolveGateError>(ResolveGateError::NotPaused),
        answer matches Ok((node, escalation)) ==> parked(events@) && option_ids(escalation.options@).contains(chosen@)
            && exists|state: RunState| #[trigger] derive_spec(events@) == state@ && attempts_bounded(state)
                && current_spec(*workflow, state, *policy, mode_name@, Some((node, escalation))),
        answer matches Err(ResolveGateError::NothingToResolve) ==> parked(events@)
            && exists|state: RunState| #[trigger] derive_spec(events@) == state@
                && (!attempts_bounded(state) || current_spec(*workflow, state, *policy, mode_name@, None)),
        answer matches Err(ResolveGateError::UnknownOption { chosen: c, declared }) ==> c@ == chosen@ && parked(events@)
            && exists|state: RunState, node: String, escalation: Escalation| #[trigger] derive_spec(events@) == state@ && attempts_bounded(state)
                && current_spec(*workflow, state, *policy, mode_name@, Some((node, escalation)))
                && !option_ids(escalation.options@).contains(chosen@)
                && declared@ == crate::render::join_spec(option_ids(escalation.options@).map_values(|id: Seq<char>| "`"@ + id + "`"@), ", "@),
{
    let n = events.len();
    if n == 0 || !matches!(events[n - 1].body, crate::events::EventBody::Known(crate::events::EventPayload::RunPaused)) {
        return Err(ResolveGateError::NotPaused);
    }
    let state = crate::replay::derive(events);
    if !schedule::attempts_within_bounds(&state) {
        return Err(ResolveGateError::NothingToResolve);
    }
    let (node, escalation) = match current_escalation(workflow, &state, policy, mode_name) {
        Some(found) => found,
        None => return Err(ResolveGateError::NothingToResolve),
    };
    if !escalation.offers(chosen) {
        let declared = escalation.menu();
        return Err(ResolveGateError::UnknownOption { chosen: chosen.clone(), declared });
    }
    Ok((node, escalation))
}

/// The choice recorded for `node` while the run was parked that this
/// wake acts on: a chosen option nothing has consumed yet and that the
/// escalation the run would ask with now still offers. A mismatch means
/// the escalation changed under the answer, and the run asks again.
pub open spec fn pre_seeded_choice(state: RunState, node: Seq<char>, escalation: Escalation) -> Option<Seq<char>> {
    match pre_seeded_spec(state@, node) {
        Some(GateResolution::Chosen { option }) => if option_ids(escalation.options@).contains(option@) {
            Some(option@)
        } else {
            None
        },
        _ => None,
    }
}

/// The choice recorded for `node` while the run was parked that this
/// wake acts on.
pub fn pre_seeded_resolution(state: &RunState, node: &String, escalation: &Escalation) -> (choice: Option<String>)
    ensures
        match choice {
            Some(c) => pre_seeded_choice(*state, node@, *escalation) == Some(c@),
            None => pre_seeded_choice(*state, node@, *escalation) is None,
        },
{
    match state.pre_seeded(node) {
        Some(GateResolution::Chosen { option }) => if escalation.offers(option) {
            Some(option.clone())
        } else {
            None
        },
        _ => None,
    }
}

} // verus!
