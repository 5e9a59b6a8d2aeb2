//! The decisions a loop's scope-expansion requests raise: what a person
//! is shown, what a rule's or a person's verdict puts on the log, and
//! the finding every denial becomes. Asking the person and writing the
//! log are the caller's.

use vstd::prelude::*;
use vstd::string::StringExecFns;

use crate::escalation::{Escalation, Fact, GateOption};
use crate::events::Finding;
use crate::render::{join, join_spec};
use crate::reserved::{self, grant_label, parse_spec, spelling, ReservedOption};
use crate::text::{copy_strings, decimal, decimal_spec, signed_decimal, signed_decimal_spec, texts};
use crate::workflow::FindingSeverity;

verus! {

/// How a run decides scope expansions.
#[derive(Debug, Clone, Copy, PartialEq, Eq)]
pub enum ExpansionMode {
    /// By the run's rules.
    Rules,
    /// By a person.
    Ask,
    /// Never granted.
    Deny,
}

/// The name a mode is shown under.
pub open spec fn mode_name_spec(mode: ExpansionMode) -> Seq<char> {
    match mode {
        ExpansionMode::Rules => "rules"@,
        ExpansionMode::Ask => "ask"@,
        ExpansionMode::Deny => "deny"@,
    }
}

/// The name a mode is shown under.
pub fn mode_name(mode: ExpansionMode) -> (name: &'static str)
    ensures
        name@ == mode_name_spec(mode),
{
    match mode {
        ExpansionMode::Rules => "rules",
        ExpansionMode::Ask => "ask",
        ExpansionMode::Deny => "deny",
    }
}

/// A task's request to touch paths outside its declared scope.
#[derive(Debug, Clone, PartialEq, Eq)]
pub struct ExpansionRequest {
    pub task: String,
    /// The attempt of the task that asked.
    pub attempt: u32,
    pub paths: Vec<String>,
    /// Why the agent says it needs them.
    pub reason: String,
    /// The command of the criterion it proposes for the widened work.
    pub proposed_criterion: Option<String>,
    /// What that criterion exited with when the engine ran it first.
    pub precheck_exit: Option<i32>,
}

/// The line the escalation shows for the proposed criterion.
pub open spec fn precheck_fact(request: ExpansionRequest) -> Seq<char> {
    match request.precheck_exit {
        Some(code) => "proposed criterion `"@ + match request.proposed_criterion {
            Some(cmd) => cmd@,
            None => "?"@,
        } + "` pre-check exit: "@ + signed_decimal_spec(code as int),
        None => "no criterion proposed"@,
    }
}

/// The line the escalation shows for the run's grant cap.
pub open spec fn cap_fact(max_per_run: Option<u32>, granted_so_far: u32) -> Seq<char> {
    match max_per_run {
        Some(cap) => decimal_spec(granted_so_far as nat) + "/"@ + decimal_spec(cap as nat) + " grant(s) used"@,
        None => decimal_spec(granted_so_far as nat) + " grant(s) so far, no cap declared"@,
    }
}

/// What a person is asked about a request: the task's claim with the
/// agent's reason, then the facts the engine verified (the paths, the
/// proposed criterion's pre-check, the mode, the cap), and the choice
/// between granting the paths and denying them.
pub open spec fn shows(escalation: Escalation, request: ExpansionRequest, mode: ExpansionMode, max_per_run: Option<u32>, granted_so_far: u32) -> bool {
    let paths = join_spec(texts(request.paths@), ", "@);
    &&& escalation.claim@ == "task `"@ + request.task@ + "` requests scope expansion: "@ + request.reason@
    &&& escalation.facts@.len() == 4
    &&& escalation.facts@[0] matches Fact::Labelled { label, value } && label@ == "paths"@ && value@ == paths
    &&& escalation.facts@[1] matches Fact::Bare { text } && text@ == precheck_fact(request)
    &&& escalation.facts@[2] matches Fact::Labelled { label, value } && label@ == "mode"@ && value@ == mode_name_spec(mode)
    &&& escalation.facts@[3] matches Fact::Bare { text } && text@ == cap_fact(max_per_run, granted_so_far)
    &&& escalation.options@.len() == 2
    &&& escalation.options@[0].id@ == spelling(ReservedOption::Grant)
    &&& escalation.options@[0].label@ == grant_label(paths)
    &&& escalation.options@[1].id@ == spelling(ReservedOption::Deny)
}

/// The escalation a person answers for a request.
pub fn expansion_escalation(request: &ExpansionRequest, mode: ExpansionMode, max_per_run: Option<u32>, granted_so_far: u32) -> (escalation: Escalation)
    ensures
        shows(escalation, *request, mode, max_per_run, granted_so_far),
{
    let paths = join(&request.paths, ", ");
    let precheck = match request.precheck_exit {
        Some(code) => {
            let mut text = String::from_str("proposed criterion `");
            match &request.proposed_criterion {
                Some(cmd) => text.append(cmd.as_str()),
                None => text.append("?"),
            }
            text.append("` pre-check exit: ");
            let n = signed_decimal(code);
            text.append(n.as_str());
            text
        },
        None => String::from_str("no criterion proposed"),
    };
    let mut cap = decimal(granted_so_far as u64);
    match max_per_run {
        Some(limit) => {
            cap.append("/");
            let n = decimal(limit as u64);
            cap.append(n.as_str());
            cap.append(" grant(s) used");
        },
        None => {
            cap.append(" grant(s) so far, no cap declared");
        },
    }
    let mut claim = String::from_str("task `");
    claim.append(request.task.as_str());
    claim.append("` requests scope expansion: ");
    claim.append(request.reason.as_str());
    let granted = reserved::grant(paths.as_str());
    let mut facts: Vec<Fact> = Vec::new();
    facts.push(Fact::Labelled { label: String::from_str("paths"), value: paths });
    facts.push(Fact::Bare { text: precheck });
    facts.push(Fact::Labelled { label: String::from_str("mode"), value: mode_name(mode).to_string() });
    facts.push(Fact::Bare { text: cap });
    let mut options: Vec<GateOption> = Vec::new();
    options.push(granted);
    options.push(reserved::deny());
    Escalation { claim, facts, options }
}

/// The finding a denied request becomes, built from the agent's own
/// words rather than new ones: a minor one, since a denial is a routine
/// outcome, not evidence that the run is broken.
pub open spec fn denial_finding_spec(request: ExpansionRequest, reason: Seq<char>, finding: Finding) -> bool {
    &&& finding.id@ == "scope-expansion-"@ + request.task@ + "-"@ + decimal_spec(request.attempt as nat)
    &&& finding.severity == FindingSeverity::Minor
    &&& finding.title@ == "scope expansion denied for task `"@ + request.task@ + "`"@
    &&& finding.location@ == join_spec(texts(request.paths@), ", "@)
    &&& finding.detail@ == reason + " \u{2014} agent's stated reason: "@ + request.reason@
}

/// The finding a denied request becomes.
pub fn denial_finding(request: &ExpansionRequest, reason: &str) -> (finding: Finding)
    ensures
        denial_finding_spec(*request, reason@, finding),
{
    let mut id = String::from_str("scope-expansion-");
    id.append(request.task.as_str());
    id.append("-");
    let n = decimal(request.attempt as u64);
    id.append(n.as_str());
    let mut title = String::from_str("scope expansion denied for task `");
    title.append(request.task.as_str());
    title.append("`");
    let mut detail = reason.to_string();
    detail.append(" \u{2014} agent's stated reason: ");
    detail.append(request.reason.as_str());
    Finding { id, severity: FindingSeverity::Minor, title, location: join(&request.paths, ", "), detail }
}

/// What the run's rules decided about a request.
#[derive(Debug, Clone, PartialEq, Eq)]
pub enum RuleVerdict {
    Granted,
    Denied { reason: String },
    /// A person decides.
    Escalate,
}

/// An event a scope-expansion decision puts on the log.
#[derive(Debug, Clone, PartialEq, Eq)]
pub enum ExpansionEvent {
    Requested { task: String, paths: Vec<String>, reason: String, proposed_criterion: Option<String>, precheck_exit: Option<i32> },
    /// The paths were granted; `count_this_run` grants so far, this one included.
    Granted { task: String, paths: Vec<String>, by_person: bool, count_this_run: u32 },
    Denied { task: String, by_person: bool, count_this_run: u32, reason: String },
    FindingPosted { finding: Finding },
    /// The task the request blocked is pending again, for its retry.
    TaskPending { task: String },
}

/// Which events a rule's verdict puts on the log, and the grant count it
/// leaves: always the request, then a grant (counted) or a denial with
/// its finding, and nothing more for an escalation, which nothing has
/// decided yet.
pub open spec fn rule_events(request: ExpansionRequest, verdict: RuleVerdict, granted: u32, events: Seq<ExpansionEvent>, count: u32) -> bool {
    &&& events.len() >= 1
    &&& events[0] matches ExpansionEvent::Requested { task, paths, reason, proposed_criterion, precheck_exit }
        && task@ == request.task@ && paths@ == request.paths@ && reason@ == request.reason@
        && proposed_criterion == request.proposed_criterion && precheck_exit == request.precheck_exit
    &&& match verdict {
        RuleVerdict::Granted => count == granted + 1 && events.len() == 2
            && (events[1] matches ExpansionEvent::Granted { task, paths, by_person, count_this_run }
            && task@ == request.task@ && paths@ == request.paths@ && !by_person && count_this_run == count),
        RuleVerdict::Denied { reason: why } => count == granted && events.len() == 3
            && (events[1] matches ExpansionEvent::Denied { task, by_person, count_this_run, reason }
                && task@ == request.task@ && !by_person && count_this_run == granted && reason@ == why@)
            && (events[2] matches ExpansionEvent::FindingPosted { finding } && denial_finding_spec(request, why@, finding)),
        RuleVerdict::Escalate => count == granted && events.len() == 1,
    }
}

/// The events one attempt's rule verdict puts on the log; `granted`
/// counts the run's grants.
pub fn rule_outcome_events(request: &ExpansionRequest, verdict: &RuleVerdict, granted: &mut u32) -> (events: Vec<ExpansionEvent>)
    requires
        *old(granted) < u32::MAX,
    ensures
        rule_events(*request, *verdict, *old(granted), events@, *final(granted)),
{
    let mut events: Vec<ExpansionEvent> = Vec::new();
    events.push(ExpansionEvent::Requested {
        task: request.task.clone(),
        paths: copy_strings(&request.paths),
        reason: request.reason.clone(),
        proposed_criterion: crate::ledger::dup_text(&request.proposed_criterion),
        precheck_exit: request.precheck_exit,
    });
    match verdict {
        RuleVerdict::Granted => {
            *granted = *granted + 1;
            events.push(ExpansionEvent::Granted {
                task: request.task.clone(),
                paths: copy_strings(&request.paths),
                by_person: false,
                count_this_run: *granted,
            });
        },
        RuleVerdict::Denied { reason } => {
            events.push(ExpansionEvent::Denied {
                task: request.task.clone(),
                by_person: false,
                count_this_run: *granted,
                reason: reason.clone(),
            });
            events.push(ExpansionEvent::FindingPosted { finding: denial_finding(request, reason.as_str()) });
        },
        RuleVerdict::Escalate => {},
    }
    events
}

/// The reason a person's denial is recorded with when they gave none.
pub open spec fn default_denial() -> Seq<char> {
    "denied by a human at the "@ + "gate"@
}

/// Which events a person's choice on a request puts on the log: a grant
/// only for an explicit `grant` (anything else denies, the conservative
/// reading, with the person's words or a default as its reason, and
/// becomes a finding); then, granted or denied, a task the request
/// blocked is pending again, to retry with the widened scope or within
/// its own.
pub open spec fn person_events(request: ExpansionRequest, option: Seq<char>, free_text: Option<Seq<char>>, was_blocked: bool, granted: u32, events: Seq<ExpansionEvent>, count: u32) -> bool {
    let decided = if parse_spec(option) == Some(ReservedOption::Grant) { 1int } else { 2int };
    let reason = match free_text {
        Some(text) => text,
        None => default_denial(),
    };
    &&& events.len() == decided + if was_blocked { 1int } else { 0int }
    &&& if parse_spec(option) == Some(ReservedOption::Grant) {
        count == granted + 1 && (events[0] matches ExpansionEvent::Granted { task, paths, by_person, count_this_run }
            && task@ == request.task@ && paths@ == request.paths@ && by_person && count_this_run == count)
    } else {
        count == granted
            && (events[0] matches ExpansionEvent::Denied { task, by_person, count_this_run, reason: why }
                && task@ == request.task@ && by_person && count_this_run == granted && why@ == reason)
            && (events[1] matches ExpansionEvent::FindingPosted { finding } && denial_finding_spec(request, reason, finding))
    }
    &&& was_blocked ==> (events.last() matches ExpansionEvent::TaskPending { task } && task@ == request.task@)
}

/// The events a person's choice on a request puts on the log, after the
/// escalation and its resolution.
pub fn person_outcome_events(request: &ExpansionRequest, option: &String, free_text: Option<String>, was_blocked: bool, granted: &mut u32) -> (events: Vec<ExpansionEvent>)
    requires
        *old(granted) < u32::MAX,
    ensures
        person_events(*request, option@, match free_text {
            Some(t) => Some(t@),
            None => None,
        }, was_blocked, *old(granted), events@, *final(granted)),
{
    let mut events: Vec<ExpansionEvent> = Vec::new();
    let grants = match ReservedOption::of(option.as_str()) {
        Some(ReservedOption::Grant) => true,
        _ => false,
    };
    if grants {
        *granted = *granted + 1;
        events.push(ExpansionEvent::Granted {
            task: request.task.clone(),
            paths: copy_strings(&request.paths),
            by_person: true,
            count_this_run: *granted,
        });
    } else {
        let reason = match free_text {
            Some(text) => text,
            None => {
                let mut text = String::from_str("denied by a human at the ");
                text.append("gate");
                text
            },
        };
        let finding = denial_finding(request, reason.as_str());
        events.push(ExpansionEvent::Denied { task: request.task.clone(), by_person: true, count_this_run: *granted, reason });
        events.push(ExpansionEvent::FindingPosted { finding });
    }
    if was_blocked {
        events.push(ExpansionEvent::TaskPending { task: request.task.clone() });
    }
    events
}

/// The failure a loop closes with while requests still wait for a
/// person: one clause per task, in order; none when nothing waits.
pub open spec fn unresolved_spec(tasks: Seq<Seq<char>>) -> Seq<char>
    decreases tasks.len(),
{
    if tasks.len() == 0 {
        "a scope expansion request needs a human decision before this run can continue"@
    } else {
        unresolved_spec(tasks.drop_last()) + "; task `"@ + tasks.last() + "` has a scope expansion request awaiting a human decision"@
    }
}

/// The failure a loop closes with while requests still wait for a person.
pub fn unresolved_diagnostic(tasks: &Vec<String>) -> (diagnostic: Option<String>)
    ensures
        match diagnostic {
            Some(d) => tasks@.len() > 0 && d@ == unresolved_spec(texts(tasks@)),
            None => tasks@.len() == 0,
        },
{
    if tasks.len() == 0 {
        return None;
    }
    let mut text = String::from_str("a scope expansion request needs a human decision before this run can continue");
    let mut i: usize = 0;
    while i < tasks.len()
        invariant
            i <= tasks@.len(),
            text@ == unresolved_spec(texts(tasks@).take(i as int)),
        decreases tasks@.len() - i,
    {
        proof {
            assert(texts(tasks@).take(i + 1).drop_last() =~= texts(tasks@).take(i as int));
        }
        text.append("; task `");
        text.append(tasks[i].as_str());
        text.append("` has a scope expansion request awaiting a human decision");
        i = i + 1;
    }
    proof {
        assert(texts(tasks@).take(tasks@.len() as int) =~= texts(tasks@));
    }
    Some(text)
}

} // verus!
