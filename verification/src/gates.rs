//! What a published gate's review comes to. A review only counts when it
//! covers the pull request's current head: anything else — no decisive
//! review yet, or an approval of a commit that is no longer the head — is
//! still waiting, not a decision. The forge is asked by the caller.

use vstd::prelude::*;
use vstd::string::StringExecFns;

use crate::events::{EventBody, EventPayload, Finding, StoredEvent};
use crate::ledger::{Failure, GateResolution, TokenUsage};
use crate::text::{decimal, decimal_spec, same_text, texts};
use crate::workflow::{FindingSeverity, GateRoute};
use crate::escalation::route_for;
use crate::text::contains_text;

verus! {

/// One comment of a review.
#[derive(Debug, Clone, PartialEq, Eq)]
pub struct ReviewComment {
    pub author: String,
    /// The file it is about, when it is about one.
    pub path: Option<String>,
    pub body: String,
}

/// Where a pull request's review stands.
#[derive(Debug, Clone, PartialEq, Eq)]
pub enum ReviewOutcome {
    Pending,
    Approved { by: String, reviewed_sha: String },
    ChangesRequested { by: String, reviewed_sha: String, comments: Vec<ReviewComment> },
    Closed,
}

/// What polling a published gate returned.
#[derive(Debug, Clone, PartialEq, Eq)]
pub struct PolledGate {
    pub review: ReviewOutcome,
    /// The pull request's current head commit.
    pub head_sha: String,
}

/// What a poll comes to: the events that record the decision, or a pause
/// while it keeps waiting.
#[derive(Debug, Clone, PartialEq, Eq)]
pub enum PollStep {
    Resolved { events: Vec<EventPayload> },
    StillWaiting { reason: String },
}

/// The finding a review comment is recorded as.
pub open spec fn comment_finding(node: Seq<char>, i: int, comment: ReviewComment, finding: Finding) -> bool {
    &&& finding.id@ == node + "-review-"@ + decimal_spec(i as nat)
    &&& finding.severity == FindingSeverity::Major
    &&& finding.title@ == "changes requested by "@ + comment.author@
    &&& finding.location@ == match comment.path {
        Some(p) => p@,
        None => "(pull request)"@,
    }
    &&& finding.detail@ == comment.body@
}

/// The events after the node restarts and the forge's decision is
/// recorded: for changes requested, each comment as a finding and then the
/// node's retryable failure; for a closed pull request, its failure.
pub open spec fn poll_events(node: Seq<char>, polled: PolledGate, events: Seq<EventPayload>) -> bool {
    match polled.review {
        ReviewOutcome::Approved { by, reviewed_sha } => {
            &&& reviewed_sha@ == polled.head_sha@
            &&& events.len() == 3
            &&& events[0] == EventPayload::NodeStarted
            &&& events[1] matches EventPayload::GateResolved { resolution: GateResolution::Forge { resolved_by: Some(b), approved_sha: Some(s) } }
                && b@ == by@ && s@ == polled.head_sha@
            &&& events[2] matches EventPayload::NodeFinished { outcome, tokens }
                && outcome@ == "approved by "@ + by@ && tokens == TokenUsage { input: 0, output: 0 }
        },
        ReviewOutcome::ChangesRequested { by, reviewed_sha, comments } => {
            &&& events.len() == comments@.len() + 3
            &&& events[0] == EventPayload::NodeStarted
            &&& events[1] matches EventPayload::GateResolved { resolution: GateResolution::Forge { resolved_by: Some(b), approved_sha: None } }
                && b@ == by@
            &&& forall|i: int| 0 <= i < comments@.len() ==> ((#[trigger] events[i + 2]) matches EventPayload::FindingPosted { finding }
                && comment_finding(node, i, comments@[i], finding))
            &&& events[events.len() - 1] matches EventPayload::NodeFailed { failure, retryable, tokens, problems }
                && retryable
                && problems@.len() == 0
                && failure.message@ == "changes requested by "@ + by@ + " at "@ + reviewed_sha@ + " ("@
                    + decimal_spec(comments@.len()) + " comment(s))"@
                && tokens == TokenUsage { input: 0, output: 0 }
        },
        ReviewOutcome::Closed => {
            &&& events.len() == 3
            &&& events[0] == EventPayload::NodeStarted
            &&& events[1] == EventPayload::GateResolved { resolution: GateResolution::Forge { resolved_by: None, approved_sha: None } }
            &&& events[2] matches EventPayload::NodeFailed { failure, retryable, tokens, problems }
                && !retryable
                && problems@.len() == 0
                && failure.message@ == "the pull request was closed without approval"@ && tokens == TokenUsage { input: 0, output: 0 }
        },
        ReviewOutcome::Pending => false,
    }
}

/// Whether a poll decides: a closed pull request, changes
/// requested, or an approval of the current head.
pub open spec fn decisive(polled: PolledGate) -> bool {
    match polled.review {
        ReviewOutcome::Approved { reviewed_sha, .. } => reviewed_sha@ == polled.head_sha@,
        ReviewOutcome::Pending => false,
        _ => true,
    }
}

/// The review-to-outcome mapping, the same whether a gate is resolved for
/// the first time or re-checked for a moved head.
pub fn resolve_from_poll(node: &String, polled: &PolledGate) -> (step: PollStep)
    ensures
        decisive(*polled) ==> (step matches PollStep::Resolved { events } && poll_events(node@, *polled, events@)),
        !decisive(*polled) ==> (step matches PollStep::StillWaiting { reason }
            && reason@ == "waiting on external gate for node `"@ + node@ + "`"@),
{
    let zero = TokenUsage { input: 0, output: 0 };
    match &polled.review {
        ReviewOutcome::Approved { by, reviewed_sha } => {
            if same_text(reviewed_sha, &polled.head_sha) {
                let mut events: Vec<EventPayload> = Vec::new();
                events.push(EventPayload::NodeStarted);
                events.push(EventPayload::GateResolved {
                    resolution: GateResolution::Forge { resolved_by: Some(by.clone()), approved_sha: Some(polled.head_sha.clone()) },
                });
                let mut outcome = String::from_str("approved by ");
                outcome.append(by.as_str());
                events.push(EventPayload::NodeFinished { outcome, tokens: zero });
                return PollStep::Resolved { events };
            }
        },
        ReviewOutcome::ChangesRequested { by, reviewed_sha, comments } => {
            let mut events: Vec<EventPayload> = Vec::new();
            events.push(EventPayload::NodeStarted);
            events.push(EventPayload::GateResolved {
                resolution: GateResolution::Forge { resolved_by: Some(by.clone()), approved_sha: None },
            });
            let mut i: usize = 0;
            while i < comments.len()
                invariant
                    i <= comments@.len(),
                    events@.len() == i + 2,
                    events@[0] == EventPayload::NodeStarted,
                    events@[1] matches EventPayload::GateResolved { resolution: GateResolution::Forge { resolved_by: Some(b), approved_sha: None } }
                        && b@ == by@,
                    forall|k: int| 0 <= k < i ==> ((#[trigger] events@[k + 2]) matches EventPayload::FindingPosted { finding }
                        && comment_finding(node@, k, comments@[k], finding)),
                decreases comments@.len() - i,
            {
                let comment = &comments[i];
                let mut id = node.clone();
                id.append("-review-");
                let n = decimal(i as u64);
                id.append(n.as_str());
                let mut title = String::from_str("changes requested by ");
                title.append(comment.author.as_str());
                let location = match &comment.path {
                    Some(p) => p.clone(),
                    None => String::from_str("(pull request)"),
                };
                let finding = Finding { id, severity: FindingSeverity::Major, title, location, detail: comment.body.clone() };
                let ghost before = events@;
                events.push(EventPayload::FindingPosted { finding });
                proof {
                    assert forall|k: int| 0 <= k < i + 1 implies ((#[trigger] events@[k + 2]) matches EventPayload::FindingPosted { finding }
                        && comment_finding(node@, k, comments@[k], finding)) by {
                        if k < i {
                            assert(events@[k + 2] == before[k + 2]);
                        }
                    }
                }
                i = i + 1;
            }
            let mut message = String::from_str("changes requested by ");
            message.append(by.as_str());
            message.append(" at ");
            message.append(reviewed_sha.as_str());
            message.append(" (");
            let count = decimal(comments.len() as u64);
            message.append(count.as_str());
            message.append(" comment(s))");
            let ghost before = events@;
            events.push(EventPayload::NodeFailed { failure: Failure { message }, retryable: true, tokens: zero, problems: Vec::new() });
            proof {
                assert forall|k: int| 0 <= k < comments@.len() implies ((#[trigger] events@[k + 2]) matches EventPayload::FindingPosted { finding }
                    && comment_finding(node@, k, comments@[k], finding)) by {
                    assert(events@[k + 2] == before[k + 2]);
                }
            }
            return PollStep::Resolved { events };
        },
        ReviewOutcome::Closed => {
            let mut events: Vec<EventPayload> = Vec::new();
            events.push(EventPayload::NodeStarted);
            events.push(EventPayload::GateResolved {
                resolution: GateResolution::Forge { resolved_by: None, approved_sha: None },
            });
            events.push(EventPayload::NodeFailed {
                failure: Failure { message: String::from_str("the pull request was closed without approval") },
                retryable: false,
                tokens: zero,
                problems: Vec::new(),
            });
            return PollStep::Resolved { events };
        },
        ReviewOutcome::Pending => {},
    }
    let mut reason = String::from_str("waiting on external gate for node `");
    reason.append(node.as_str());
    reason.append("`");
    PollStep::StillWaiting { reason }
}

/// The head commit the latest approval of `node`'s gate covered, among the
/// first `n` events.
pub open spec fn last_approved(events: Seq<StoredEvent>, node: Seq<char>, n: int) -> Option<String>
    decreases n,
{
    if n <= 0 || n > events.len() {
        None
    } else {
        match (events[n - 1].node_id, events[n - 1].body) {
            (Some(id), EventBody::Known(EventPayload::GateResolved { resolution: GateResolution::Forge { approved_sha: Some(sha), .. } }))
                if id@ == node => Some(sha),
            _ => last_approved(events, node, n - 1),
        }
    }
}

/// The handle `node`'s gate was last published under, among the first `n`
/// events.
pub open spec fn last_published(events: Seq<StoredEvent>, node: Seq<char>, n: int) -> Option<String>
    decreases n,
{
    if n <= 0 || n > events.len() {
        None
    } else {
        match (events[n - 1].node_id, events[n - 1].body) {
            (Some(id), EventBody::Known(EventPayload::GateWaiting { external_ref: Some(r) })) if id@ == node => Some(r),
            _ => last_published(events, node, n - 1),
        }
    }
}

/// The head commit the latest approval of `node`'s gate covered.
pub fn last_approved_sha(events: &Vec<StoredEvent>, node: &String) -> (sha: Option<String>)
    ensures
        sha == last_approved(events@, node@, events@.len() as int),
{
    let mut i: usize = events.len();
    while i > 0
        invariant
            i <= events@.len(),
            last_approved(events@, node@, events@.len() as int) == last_approved(events@, node@, i as int),
        decreases i,
    {
        if let (Some(id), EventBody::Known(EventPayload::GateResolved { resolution: GateResolution::Forge { approved_sha: Some(sha), .. } }))
            = (&events[i - 1].node_id, &events[i - 1].body) {
            if same_text(id, node) {
                return Some(sha.clone());
            }
        }
        i = i - 1;
    }
    None
}

/// The handle `node`'s gate was last published under.
pub fn last_external_ref(events: &Vec<StoredEvent>, node: &String) -> (external_ref: Option<String>)
    ensures
        external_ref == last_published(events@, node@, events@.len() as int),
{
    let mut i: usize = events.len();
    while i > 0
        invariant
            i <= events@.len(),
            last_published(events@, node@, events@.len() as int) == last_published(events@, node@, i as int),
        decreases i,
    {
        if let (Some(id), EventBody::Known(EventPayload::GateWaiting { external_ref: Some(r) })) = (&events[i - 1].node_id, &events[i - 1].body) {
            if same_text(id, node) {
                return Some(r.clone());
            }
        }
        i = i - 1;
    }
    None
}

/// Whether a gate approved at `approved_sha` must be asked again: the pull
/// request's head moved past what was approved.
pub fn approval_is_stale(approved_sha: &String, head_sha: &String) -> (stale: bool)
    ensures
        stale == (approved_sha@ != head_sha@),
{
    !same_text(approved_sha, head_sha)
}

/// A person's answer to an escalation.
#[derive(Debug, Clone, PartialEq, Eq)]
pub struct HumanAnswer {
    pub chosen_option: Option<String>,
    pub free_text: Option<String>,
    pub resolved_by: Option<String>,
}

/// What a gate's answer does to its node.
#[derive(Debug, Clone, PartialEq, Eq)]
pub enum GateConsequence {
    /// Nobody answered: nothing is recorded, and a resume asks again.
    StillWaiting { reason: String },
    /// `abort` was chosen: the pair is recorded, the run pauses, and the
    /// node is left as it was so a resume asks again.
    Abort { reason: String },
    /// An option mapped in `on:`: the node fails retryable and control
    /// re-routes to `to`, which asks again once its subgraph completes.
    Reroute { failure: String, to: String, cause: String },
    /// The node finishes with this outcome.
    Finish { outcome: String },
    /// The node fails, retryable, with this outcome.
    Fail { outcome: String },
}

/// The option an answer chose; none counts as the empty option.
pub open spec fn chosen_text(answer: HumanAnswer) -> Seq<char> {
    match answer.chosen_option {
        Some(c) => c@,
        None => Seq::empty(),
    }
}

/// What an internal gate's answer does: no answer keeps it waiting; the
/// engine's own `abort` (appended only when the author declared no option
/// of that id) pauses the run; an option mapped in `on:` re-routes to its
/// node; any other option finishes the node with that option as its
/// outcome.
pub open spec fn internal_gate_spec(node: Seq<char>, assignee: Seq<char>, options: Seq<String>, on: Seq<GateRoute>, answer: Option<HumanAnswer>, consequence: GateConsequence) -> bool {
    match answer {
        None => consequence matches GateConsequence::StillWaiting { reason }
            && reason@ == "gate `"@ + node + "` (assignee: "@ + assignee + ") awaits a decision"@,
        Some(a) => {
            let chosen = chosen_text(a);
            if !texts(options).contains("abort"@) && chosen == "abort"@ {
                consequence matches GateConsequence::Abort { reason } && reason@ == "gate `"@ + node + "` was resolved to abort"@
                    + match a.free_text {
                        Some(t) => ": "@ + t@,
                        None => Seq::empty(),
                    }
            } else {
                match route_for(on, chosen, 0) {
                    Some(r) => consequence matches GateConsequence::Reroute { failure, to, cause }
                        && failure@ == "gate chose `"@ + chosen + "` — re-routing to `"@ + on[r].target@ + "`"@
                        && to@ == on[r].target@
                        && cause@ == "gate `"@ + node + "` chose `"@ + chosen + "`"@,
                    None => consequence matches GateConsequence::Finish { outcome } && outcome@ == chosen,
                }
            }
        },
    }
}

fn routed_target(on: &Vec<GateRoute>, option: &String) -> (target: Option<String>)
    ensures
        match target {
            Some(t) => route_for(on@, option@, 0) matches Some(i) && on@[i].target@ == t@,
            None => route_for(on@, option@, 0) is None,
        },
{
    let mut i: usize = 0;
    while i < on.len()
        invariant
            i <= on@.len(),
            route_for(on@, option@, 0) == route_for(on@, option@, i as int),
        decreases on@.len() - i,
    {
        if same_text(&on[i].option, option) {
            return Some(on[i].target.clone());
        }
        i = i + 1;
    }
    None
}

/// What an internal gate's answer does to its node.
pub fn internal_gate_consequence(
    node: &String,
    assignee: &String,
    options: &Vec<String>,
    on: &Vec<GateRoute>,
    answer: Option<&HumanAnswer>,
) -> (consequence: GateConsequence)
    ensures
        internal_gate_spec(node@, assignee@, options@, on@, match answer {
            Some(a) => Some(*a),
            None => None,
        }, consequence),
{
    let answer = match answer {
        Some(a) => a,
        None => {
            let mut reason = String::from_str("gate `");
            reason.append(node.as_str());
            reason.append("` (assignee: ");
            reason.append(assignee.as_str());
            reason.append(") awaits a decision");
            return GateConsequence::StillWaiting { reason };
        },
    };
    let chosen = match &answer.chosen_option {
        Some(c) => c.clone(),
        None => String::new(),
    };
    let abort = String::from_str("abort");
    proof { reveal_strlit("abort"); }
    let engine_abort = !contains_text(options, &abort);
    if engine_abort && same_text(&chosen, &abort) {
        let mut reason = String::from_str("gate `");
        reason.append(node.as_str());
        reason.append("` was resolved to abort");
        let ghost head = reason@;
        proof { assert(head == "gate `"@ + node@ + "` was resolved to abort"@); }
        if let Some(text) = &answer.free_text {
            reason.append(": ");
            reason.append(text.as_str());
            proof { assert(reason@ == head + (": "@ + text@)); }
        } else {
            proof { assert(reason@ == head + Seq::<char>::empty()); }
        }
        proof {
            assert(chosen_text(*answer) == chosen@);
            assert(chosen@ == "abort"@);
            assert(!texts(options@).contains("abort"@));
        }
        return GateConsequence::Abort { reason };
    }
    match routed_target(on, &chosen) {
        Some(target) => {
            let mut failure = String::from_str("gate chose `");
            failure.append(chosen.as_str());
            failure.append("` — re-routing to `");
            failure.append(target.as_str());
            failure.append("`");
            let mut cause = String::from_str("gate `");
            cause.append(node.as_str());
            cause.append("` chose `");
            cause.append(chosen.as_str());
            cause.append("`");
            GateConsequence::Reroute { failure, to: target, cause }
        },
        None => GateConsequence::Finish { outcome: chosen },
    }
}

/// What a published gate resolved from the console does to its node, when
/// no forge can be reached: `approve` finishes it (naming who approved,
/// when known); any other answer fails it, retryable, so a declared
/// re-route still gets its chance; no answer keeps it waiting.
pub fn console_consequence(summary: &String, answer: Option<&HumanAnswer>) -> (consequence: GateConsequence)
    ensures
        match answer {
            None => consequence == GateConsequence::StillWaiting { reason: *summary },
            Some(a) => if chosen_text(*a) == "approve"@ && a.chosen_option is Some {
                consequence matches GateConsequence::Finish { outcome } && outcome@ == "approved from the console"@
                    + match a.resolved_by {
                        Some(by) => " by "@ + by@,
                        None => Seq::empty(),
                    }
            } else {
                consequence matches GateConsequence::Fail { outcome } && outcome@ == "rejected from the console"@
            },
        },
{
    let answer = match answer {
        Some(a) => a,
        None => return GateConsequence::StillWaiting { reason: summary.clone() },
    };
    let approve = String::from_str("approve");
    let approved = match &answer.chosen_option {
        Some(c) => same_text(c, &approve),
        None => false,
    };
    if approved {
        let mut outcome = String::from_str("approved from the console");
        if let Some(by) = &answer.resolved_by {
            outcome.append(" by ");
            outcome.append(by.as_str());
        }
        GateConsequence::Finish { outcome }
    } else {
        GateConsequence::Fail { outcome: String::from_str("rejected from the console") }
    }
}

/// How many of the first `n` events started `node`.
pub open spec fn starts_of(events: Seq<StoredEvent>, node: Seq<char>, n: int) -> nat
    decreases n,
{
    if n <= 0 || n > events.len() {
        0
    } else {
        starts_of(events, node, n - 1) + if events[n - 1].body == EventBody::Known(EventPayload::NodeStarted)
            && (events[n - 1].node_id matches Some(id) && id@ == node) { 1nat } else { 0nat }
    }
}

/// The attempt a node's next start carries: one more than the starts the
/// log holds for it, saturating.
pub fn start_attempt(events: &Vec<StoredEvent>, node: &String) -> (attempt: u32)
    ensures
        attempt == if starts_of(events@, node@, events@.len() as int) >= u32::MAX { u32::MAX } else {
            (starts_of(events@, node@, events@.len() as int) + 1) as u32
        },
{
    let mut count: u64 = 0;
    let mut i: usize = 0;
    while i < events.len()
        invariant
            i <= events@.len(),
            count == starts_of(events@, node@, i as int),
            count <= i,
        decreases events@.len() - i,
    {
        let is_start = matches!(events[i].body, EventBody::Known(EventPayload::NodeStarted));
        let for_node = match &events[i].node_id {
            Some(id) => same_text(id, node),
            None => false,
        };
        proof {
            assert(is_start == (events@[i as int].body == EventBody::Known(EventPayload::NodeStarted)));
        }
        if is_start && for_node {
            count = count + 1;
        }
        i = i + 1;
    }
    if count >= u32::MAX as u64 { u32::MAX } else { count as u32 + 1 }
}

} // verus!
