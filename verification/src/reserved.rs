//! The escalation options the engine itself builds and interprets. Their
//! spellings live here once, so no decision ever matches a person's choice
//! against a bare string: the reserved vocabulary is one closed enum, built
//! from it and read back through it.

use vstd::prelude::*;
use vstd::string::StringExecFns;

use crate::escalation::GateOption;
use crate::text::{decimal, decimal_spec, is_white_space, readable, text_equals};

verus! {

/// An option the engine appends to an escalation and acts on when a
/// person picks it — as opposed to an author-declared option, which the
/// engine only records.
#[derive(Debug, Clone, Copy, PartialEq, Eq)]
pub enum ReservedOption {
    /// Pause the run with the decision recorded.
    Abort,
    /// Re-route to the corrective node once more, past the reroute cap.
    Retry,
    /// Accept promotion to the next declared mode.
    Promote,
    /// Approve a published gate.
    Approve,
    /// Grant a scope expansion a task requested.
    Grant,
    /// Deny a scope expansion a task requested.
    Deny,
    /// Lift a budget cap for this invocation only.
    Continue,
    /// Reject a published gate resolved from the console.
    Reject,
}

/// The spelling of each reserved option.
pub open spec fn spelling(option: ReservedOption) -> Seq<char> {
    match option {
        ReservedOption::Abort => "abort"@,
        ReservedOption::Retry => "retry"@,
        ReservedOption::Promote => "promote"@,
        ReservedOption::Approve => "approve"@,
        ReservedOption::Grant => "grant"@,
        ReservedOption::Deny => "deny"@,
        ReservedOption::Continue => "continue"@,
        ReservedOption::Reject => "reject"@,
    }
}

/// The reserved option a text spells, if any.
pub open spec fn parse_spec(text: Seq<char>) -> Option<ReservedOption> {
    if text == "abort"@ { Some(ReservedOption::Abort) }
    else if text == "retry"@ { Some(ReservedOption::Retry) }
    else if text == "promote"@ { Some(ReservedOption::Promote) }
    else if text == "approve"@ { Some(ReservedOption::Approve) }
    else if text == "grant"@ { Some(ReservedOption::Grant) }
    else if text == "deny"@ { Some(ReservedOption::Deny) }
    else if text == "continue"@ { Some(ReservedOption::Continue) }
    else if text == "reject"@ { Some(ReservedOption::Reject) }
    else { None }
}

impl ReservedOption {
    /// The YAML/log spelling — the one place each option's text is
    /// written, for both building an escalation and comparing a choice.
    pub fn as_str(self) -> (text: &'static str)
        ensures
            text@ == spelling(self),
    {
        match self {
            ReservedOption::Abort => "abort",
            ReservedOption::Retry => "retry",
            ReservedOption::Promote => "promote",
            ReservedOption::Approve => "approve",
            ReservedOption::Grant => "grant",
            ReservedOption::Deny => "deny",
            ReservedOption::Continue => "continue",
            ReservedOption::Reject => "reject",
        }
    }

    /// The option as an escalation offers it.
    pub fn id(self) -> (id: String)
        ensures
            id@ == spelling(self),
    {
        self.as_str().to_string()
    }

    /// The reserved option `id` spells, or `None` for an author's own.
    pub fn of(id: &str) -> (option: Option<ReservedOption>)
        ensures
            option == parse_spec(id@),
    {
        if text_equals(id, "abort") { Some(ReservedOption::Abort) }
        else if text_equals(id, "retry") { Some(ReservedOption::Retry) }
        else if text_equals(id, "promote") { Some(ReservedOption::Promote) }
        else if text_equals(id, "approve") { Some(ReservedOption::Approve) }
        else if text_equals(id, "grant") { Some(ReservedOption::Grant) }
        else if text_equals(id, "deny") { Some(ReservedOption::Deny) }
        else if text_equals(id, "continue") { Some(ReservedOption::Continue) }
        else if text_equals(id, "reject") { Some(ReservedOption::Reject) }
        else { None }
    }

    /// The option this one is offered as, with the words a person picks
    /// it by.
    fn offer(self, label: String, tradeoff: String) -> (offered: GateOption)
        ensures
            offered.id@ == spelling(self),
            offered.label == label,
            offered.tradeoff == tradeoff,
    {
        GateOption { id: self.id(), label, tradeoff }
    }
}

/// Every option's spelling reads back as that option, and every reserved
/// reading comes from exactly one spelling.
pub proof fn law_a_spelling_reads_back_as_its_option(option: ReservedOption, text: Seq<char>)
    ensures
        parse_spec(spelling(option)) == Some(option),
        parse_spec(text) == Some(option) ==> text == spelling(option),
{
    reveal_strlit("abort");
    reveal_strlit("retry");
    reveal_strlit("promote");
    reveal_strlit("approve");
    reveal_strlit("grant");
    reveal_strlit("deny");
    reveal_strlit("continue");
    reveal_strlit("reject");
    let s = spelling(option);
    assert(s == "abort"@ || s.len() != "abort"@.len() || s[0] != "abort"@[0]);
    assert(s == "retry"@ || s.len() != "retry"@.len() || s[0] != "retry"@[0]);
    assert(s == "promote"@ || s.len() != "promote"@.len() || s[0] != "promote"@[0]);
    assert(s == "approve"@ || s.len() != "approve"@.len() || s[0] != "approve"@[0]);
    assert(s == "grant"@ || s.len() != "grant"@.len() || s[0] != "grant"@[0]);
    assert(s == "deny"@ || s.len() != "deny"@.len() || s[0] != "deny"@[0]);
    assert(s == "continue"@ || s.len() != "continue"@.len() || s[0] != "continue"@[0]);
    assert(s == "reject"@ || s.len() != "reject"@.len() || s[0] != "reject"@[0]);
    if parse_spec(text) == Some(option) {
        assert(text != "abort"@ || text == s || s.len() != "abort"@.len() || s[0] != "abort"@[0]);
        assert(text != "retry"@ || text == s || s.len() != "retry"@.len() || s[0] != "retry"@[0]);
        assert(text != "promote"@ || text == s || s.len() != "promote"@.len() || s[0] != "promote"@[0]);
        assert(text != "approve"@ || text == s || s.len() != "approve"@.len() || s[0] != "approve"@[0]);
        assert(text != "grant"@ || text == s || s.len() != "grant"@.len() || s[0] != "grant"@[0]);
        assert(text != "deny"@ || text == s || s.len() != "deny"@.len() || s[0] != "deny"@[0]);
        assert(text != "continue"@ || text == s || s.len() != "continue"@.len() || s[0] != "continue"@[0]);
        assert(text != "reject"@ || text == s || s.len() != "reject"@.len() || s[0] != "reject"@[0]);
    }
}

// ---------------------------------------------------------------------
// The offers, each with the words a person reads before choosing it.

pub open spec fn retry_label(goto: Seq<char>) -> Seq<char> {
    "Re-route to `"@ + goto + "` once more"@
}

pub open spec fn retry_tradeoff(goto: Seq<char>, max_reroutes: u32) -> Seq<char> {
    "Uses one extra correction attempt beyond the declared max_reroutes ("@ + decimal_spec(max_reroutes as nat)
        + "); escalates again if `"@ + goto + "` doesn't fix it"@
}

pub open spec fn promote_label(next_mode: Seq<char>) -> Seq<char> {
    "Promote to mode `"@ + next_mode + "`"@
}

pub open spec fn promote_tradeoff(next_mode: Seq<char>, mode_name: Seq<char>) -> Seq<char> {
    "Closes this run (`run_finished: promoted`) and starts a successor in `"@ + next_mode
        + "`, inheriting this run's artifacts — there's no mechanism to demote back to `"@ + mode_name + "`"@
}

pub open spec fn grant_label(paths: Seq<char>) -> Seq<char> {
    "Grant access to "@ + paths
}

pub open spec fn declared_tradeoff(target: Option<Seq<char>>) -> Seq<char> {
    match target {
        Some(t) => "re-routes to `"@ + t + "` and asks again once it completes"@,
        None => "resolves this gate; the flow continues"@,
    }
}

/// Stop, on any escalation.
pub fn abort() -> (offered: GateOption)
    ensures
        offered.id@ == spelling(ReservedOption::Abort),
        offered.label@ == "Abort the run"@,
        offered.tradeoff@ == "Pauses here; nothing further executes"@,
{
    ReservedOption::Abort.offer(
        String::from_str("Abort the run"),
        String::from_str("Pauses here; nothing further executes"),
    )
}

/// Send a failed node back through its corrective node once more, past
/// the cap the workflow declared.
pub fn retry(goto: &str, max_reroutes: u32) -> (offered: GateOption)
    ensures
        offered.id@ == spelling(ReservedOption::Retry),
        offered.label@ == retry_label(goto@),
        offered.tradeoff@ == retry_tradeoff(goto@, max_reroutes),
{
    let mut label = String::from_str("Re-route to `");
    label.append(goto);
    label.append("` once more");
    let mut tradeoff = String::from_str("Uses one extra correction attempt beyond the declared max_reroutes (");
    let count = decimal(max_reroutes as u64);
    tradeoff.append(count.as_str());
    tradeoff.append("); escalates again if `");
    tradeoff.append(goto);
    tradeoff.append("` doesn't fix it");
    ReservedOption::Retry.offer(label, tradeoff)
}

/// Close this run and start its successor in the next declared mode.
pub fn promote(next_mode: &str, mode_name: &str) -> (offered: GateOption)
    ensures
        offered.id@ == spelling(ReservedOption::Promote),
        offered.label@ == promote_label(next_mode@),
        offered.tradeoff@ == promote_tradeoff(next_mode@, mode_name@),
{
    let mut label = String::from_str("Promote to mode `");
    label.append(next_mode);
    label.append("`");
    let mut tradeoff = String::from_str("Closes this run (`run_finished: promoted`) and starts a successor in `");
    tradeoff.append(next_mode);
    tradeoff.append("`, inheriting this run's artifacts — there's no mechanism to demote back to `");
    tradeoff.append(mode_name);
    tradeoff.append("`");
    ReservedOption::Promote.offer(label, tradeoff)
}

/// Spend past the run's token cap for this invocation.
pub fn continue_past_tokens() -> (offered: GateOption)
    ensures
        offered.id@ == spelling(ReservedOption::Continue),
        offered.label@ == "Continue past the cap"@,
        offered.tradeoff@ == "Lifts the cap for this invocation only; a later resume will ask again before spending more"@,
{
    ReservedOption::Continue.offer(
        String::from_str("Continue past the cap"),
        String::from_str("Lifts the cap for this invocation only; a later resume will ask again before spending more"),
    )
}

/// Stop spending, with the run parked on the cap.
pub fn abort_on_tokens() -> (offered: GateOption)
    ensures
        offered.id@ == spelling(ReservedOption::Abort),
        offered.label@ == "Pause the run"@,
        offered.tradeoff@ == "The run pauses with reason `budget`; a resume re-asks"@,
{
    ReservedOption::Abort.offer(
        String::from_str("Pause the run"),
        String::from_str("The run pauses with reason `budget`; a resume re-asks"),
    )
}

/// Iterate past the loop's declared cap for this invocation.
pub fn continue_past_iterations() -> (offered: GateOption)
    ensures
        offered.id@ == spelling(ReservedOption::Continue),
        offered.label@ == "Keep iterating"@,
        offered.tradeoff@ == "Lifts the cap for this invocation only; a later resume will ask again"@,
{
    ReservedOption::Continue.offer(
        String::from_str("Keep iterating"),
        String::from_str("Lifts the cap for this invocation only; a later resume will ask again"),
    )
}

/// Stop iterating, failing the loop node on its own limit.
pub fn abort_on_iterations() -> (offered: GateOption)
    ensures
        offered.id@ == spelling(ReservedOption::Abort),
        offered.label@ == "Fail the loop node"@,
        offered.tradeoff@ == "The node fails naming the limit and the run pauses; a resume re-runs the loop and re-asks"@,
{
    ReservedOption::Abort.offer(
        String::from_str("Fail the loop node"),
        String::from_str("The node fails naming the limit and the run pauses; a resume re-runs the loop and re-asks"),
    )
}

/// What approving a gate from the console costs: it passes, and the run
/// goes on.
pub open spec fn approve_tradeoff() -> Seq<char> {
    "Marks the "@ + "gate as passed; the run continues"@
}

/// Pass a gate the forge could not be asked about.
pub fn approve_from_console() -> (offered: GateOption)
    ensures
        offered.id@ == spelling(ReservedOption::Approve),
        offered.label@ == "Approve"@,
        offered.tradeoff@ == approve_tradeoff(),
{
    let mut tradeoff = String::from_str("Marks the ");
    tradeoff.append("gate as passed; the run continues");
    ReservedOption::Approve.offer(String::from_str("Approve"), tradeoff)
}

/// Fail a gate the forge could not be asked about.
pub fn reject_from_console() -> (offered: GateOption)
    ensures
        offered.id@ == spelling(ReservedOption::Reject),
        offered.label@ == "Reject"@,
        offered.tradeoff@ == "Fails the node; its declared re-route (if any) takes over"@,
{
    ReservedOption::Reject.offer(
        String::from_str("Reject"),
        String::from_str("Fails the node; its declared re-route (if any) takes over"),
    )
}

/// Widen a task's scope to the paths it asked for.
pub fn grant(paths: &str) -> (offered: GateOption)
    ensures
        offered.id@ == spelling(ReservedOption::Grant),
        offered.label@ == grant_label(paths@),
        offered.tradeoff@ == "The task's final diff is evaluated against its scope plus these paths"@,
{
    let mut label = String::from_str("Grant access to ");
    label.append(paths);
    ReservedOption::Grant.offer(
        label,
        String::from_str("The task's final diff is evaluated against its scope plus these paths"),
    )
}

/// Refuse the widening, leaving the task to finish inside its scope.
pub fn deny() -> (offered: GateOption)
    ensures
        offered.id@ == spelling(ReservedOption::Deny),
        offered.label@ == "Deny the request"@,
        offered.tradeoff@ == "The denial becomes a finding; the task retries within its declared scope"@,
{
    ReservedOption::Deny.offer(
        String::from_str("Deny the request"),
        String::from_str("The denial becomes a finding; the task retries within its declared scope"),
    )
}

/// An author's own gate option, whose words come from the `on:` mapping
/// the workflow declared for it.
pub fn declared(id: &String, target: Option<&String>) -> (offered: GateOption)
    ensures
        offered.id@ == id@,
        offered.label@ == id@,
        offered.tradeoff@ == declared_tradeoff(match target { Some(t) => Some(t@), None => None }),
{
    let tradeoff = match target {
        Some(target) => {
            let mut text = String::from_str("re-routes to `");
            text.append(target.as_str());
            text.append("` and asks again once it completes");
            text
        },
        None => String::from_str("resolves this gate; the flow continues"),
    };
    GateOption { id: id.clone(), label: id.clone(), tradeoff }
}

proof fn lemma_readable_prefix(prefix: Seq<char>, rest: Seq<char>)
    requires
        readable(prefix),
    ensures
        readable(prefix + rest),
{
    let i = choose|i: int| 0 <= i < prefix.len() && !is_white_space(#[trigger] prefix[i]);
    assert((prefix + rest)[i] == prefix[i]);
}

proof fn lemma_readable_first(text: Seq<char>)
    requires
        text.len() > 0,
        !is_white_space(text[0]),
    ensures
        readable(text),
{
}

/// Every option the engine offers says what choosing it costs and has
/// something to read on its row: no label or tradeoff the engine builds is
/// blank.
pub proof fn law_every_offer_says_what_choosing_it_costs(goto: Seq<char>, max_reroutes: u32, next_mode: Seq<char>, mode_name: Seq<char>, paths: Seq<char>, target: Option<Seq<char>>)
    ensures
        readable("Abort the run"@) && readable("Pauses here; nothing further executes"@),
        readable(retry_label(goto)) && readable(retry_tradeoff(goto, max_reroutes)),
        readable(promote_label(next_mode)) && readable(promote_tradeoff(next_mode, mode_name)),
        readable("Continue past the cap"@) && readable("Lifts the cap for this invocation only; a later resume will ask again before spending more"@),
        readable("Pause the run"@) && readable("The run pauses with reason `budget`; a resume re-asks"@),
        readable("Keep iterating"@) && readable("Lifts the cap for this invocation only; a later resume will ask again"@),
        readable("Fail the loop node"@) && readable("The node fails naming the limit and the run pauses; a resume re-runs the loop and re-asks"@),
        readable("Approve"@) && readable(approve_tradeoff()),
        readable("Reject"@) && readable("Fails the node; its declared re-route (if any) takes over"@),
        readable(grant_label(paths)) && readable("The task's final diff is evaluated against its scope plus these paths"@),
        readable("Deny the request"@) && readable("The denial becomes a finding; the task retries within its declared scope"@),
        readable(declared_tradeoff(target)),
{
    reveal_strlit("Abort the run"); lemma_readable_first("Abort the run"@);
    reveal_strlit("Pauses here; nothing further executes"); lemma_readable_first("Pauses here; nothing further executes"@);
    reveal_strlit("Re-route to `"); lemma_readable_first("Re-route to `"@);
    lemma_readable_prefix("Re-route to `"@, goto);
    lemma_readable_prefix("Re-route to `"@ + goto, "` once more"@);
    reveal_strlit("Uses one extra correction attempt beyond the declared max_reroutes (");
    lemma_readable_first("Uses one extra correction attempt beyond the declared max_reroutes ("@);
    lemma_readable_prefix("Uses one extra correction attempt beyond the declared max_reroutes ("@, decimal_spec(max_reroutes as nat));
    lemma_readable_prefix("Uses one extra correction attempt beyond the declared max_reroutes ("@ + decimal_spec(max_reroutes as nat), "); escalates again if `"@);
    lemma_readable_prefix("Uses one extra correction attempt beyond the declared max_reroutes ("@ + decimal_spec(max_reroutes as nat) + "); escalates again if `"@, goto);
    lemma_readable_prefix("Uses one extra correction attempt beyond the declared max_reroutes ("@ + decimal_spec(max_reroutes as nat) + "); escalates again if `"@ + goto, "` doesn't fix it"@);
    reveal_strlit("Promote to mode `"); lemma_readable_first("Promote to mode `"@);
    lemma_readable_prefix("Promote to mode `"@, next_mode);
    lemma_readable_prefix("Promote to mode `"@ + next_mode, "`"@);
    reveal_strlit("Closes this run (`run_finished: promoted`) and starts a successor in `");
    let p0 = "Closes this run (`run_finished: promoted`) and starts a successor in `"@;
    lemma_readable_first(p0);
    lemma_readable_prefix(p0, next_mode);
    lemma_readable_prefix(p0 + next_mode, "`, inheriting this run's artifacts — there's no mechanism to demote back to `"@);
    lemma_readable_prefix(p0 + next_mode + "`, inheriting this run's artifacts — there's no mechanism to demote back to `"@, mode_name);
    lemma_readable_prefix(p0 + next_mode + "`, inheriting this run's artifacts — there's no mechanism to demote back to `"@ + mode_name, "`"@);
    reveal_strlit("Continue past the cap"); lemma_readable_first("Continue past the cap"@);
    reveal_strlit("Lifts the cap for this invocation only; a later resume will ask again before spending more");
    lemma_readable_first("Lifts the cap for this invocation only; a later resume will ask again before spending more"@);
    reveal_strlit("Pause the run"); lemma_readable_first("Pause the run"@);
    reveal_strlit("The run pauses with reason `budget`; a resume re-asks"); lemma_readable_first("The run pauses with reason `budget`; a resume re-asks"@);
    reveal_strlit("Keep iterating"); lemma_readable_first("Keep iterating"@);
    reveal_strlit("Lifts the cap for this invocation only; a later resume will ask again");
    lemma_readable_first("Lifts the cap for this invocation only; a later resume will ask again"@);
    reveal_strlit("Fail the loop node"); lemma_readable_first("Fail the loop node"@);
    reveal_strlit("The node fails naming the limit and the run pauses; a resume re-runs the loop and re-asks");
    lemma_readable_first("The node fails naming the limit and the run pauses; a resume re-runs the loop and re-asks"@);
    reveal_strlit("Approve"); lemma_readable_first("Approve"@);
    reveal_strlit("Marks the "); lemma_readable_first("Marks the "@);
    lemma_readable_prefix("Marks the "@, "gate as passed; the run continues"@);
    reveal_strlit("Reject"); lemma_readable_first("Reject"@);
    reveal_strlit("Fails the node; its declared re-route (if any) takes over"); lemma_readable_first("Fails the node; its declared re-route (if any) takes over"@);
    reveal_strlit("Grant access to "); lemma_readable_first("Grant access to "@);
    lemma_readable_prefix("Grant access to "@, paths);
    reveal_strlit("The task's final diff is evaluated against its scope plus these paths");
    lemma_readable_first("The task's final diff is evaluated against its scope plus these paths"@);
    reveal_strlit("Deny the request"); lemma_readable_first("Deny the request"@);
    reveal_strlit("The denial becomes a finding; the task retries within its declared scope");
    lemma_readable_first("The denial becomes a finding; the task retries within its declared scope"@);
    reveal_strlit("re-routes to `"); lemma_readable_first("re-routes to `"@);
    reveal_strlit("resolves this gate; the flow continues"); lemma_readable_first("resolves this gate; the flow continues"@);
    if let Some(t) = target {
        lemma_readable_prefix("re-routes to `"@, t);
        lemma_readable_prefix("re-routes to `"@ + t, "` and asks again once it completes"@);
    }
}

} // verus!
