use yunta_engine::events::{EventBody, EventPayload, StoredEvent};
use yunta_engine::gates::{
    approval_is_stale, console_consequence, internal_gate_consequence, last_approved_sha, last_external_ref, resolve_from_poll,
    start_attempt, GateConsequence, HumanAnswer, PollStep, PolledGate, ReviewComment, ReviewOutcome,
};
use yunta_engine::ledger::{GateResolution, TokenUsage};
use yunta_engine::workflow::{FindingSeverity, GateRoute};

fn answer(option: Option<&str>, free_text: Option<&str>, by: Option<&str>) -> HumanAnswer {
    HumanAnswer {
        chosen_option: option.map(|o| o.to_string()),
        free_text: free_text.map(|t| t.to_string()),
        resolved_by: by.map(|b| b.to_string()),
    }
}

#[test]
fn an_approval_of_the_current_head_finishes_the_gate() {
    let polled = PolledGate {
        review: ReviewOutcome::Approved { by: "ana".to_string(), reviewed_sha: "abc".to_string() },
        head_sha: "abc".to_string(),
    };
    match resolve_from_poll(&"review".to_string(), &polled) {
        PollStep::Resolved { events } => {
            assert_eq!(events.len(), 3);
            assert_eq!(events[0], EventPayload::NodeStarted);
            assert_eq!(
                events[1],
                EventPayload::GateResolved {
                    resolution: GateResolution::Forge { resolved_by: Some("ana".to_string()), approved_sha: Some("abc".to_string()) }
                }
            );
            assert_eq!(events[2], EventPayload::NodeFinished { outcome: "approved by ana".to_string(), tokens: TokenUsage::default() });
        },
        other => panic!("expected a decision, got {other:?}"),
    }
}

#[test]
fn an_approval_of_an_older_head_is_still_waiting() {
    let polled = PolledGate {
        review: ReviewOutcome::Approved { by: "ana".to_string(), reviewed_sha: "old".to_string() },
        head_sha: "new".to_string(),
    };
    assert_eq!(
        resolve_from_poll(&"review".to_string(), &polled),
        PollStep::StillWaiting { reason: "waiting on external gate for node `review`".to_string() }
    );
    assert!(approval_is_stale(&"old".to_string(), &"new".to_string()));
}

#[test]
fn requested_changes_post_each_comment_as_a_finding() {
    let polled = PolledGate {
        review: ReviewOutcome::ChangesRequested {
            by: "bo".to_string(),
            reviewed_sha: "abc".to_string(),
            comments: vec![
                ReviewComment { author: "bo".to_string(), path: Some("src/a.rs".to_string()), body: "rename".to_string() },
                ReviewComment { author: "cy".to_string(), path: None, body: "tests?".to_string() },
            ],
        },
        head_sha: "abc".to_string(),
    };
    let PollStep::Resolved { events } = resolve_from_poll(&"review".to_string(), &polled) else {
        panic!("changes requested are a decision");
    };
    assert_eq!(events.len(), 5);
    match &events[3] {
        EventPayload::FindingPosted { finding } => {
            assert_eq!(finding.id, "review-review-1");
            assert_eq!(finding.severity, FindingSeverity::Major);
            assert_eq!(finding.title, "changes requested by cy");
            assert_eq!(finding.location, "(pull request)");
        },
        other => panic!("expected a finding, got {other:?}"),
    }
    match &events[4] {
        EventPayload::NodeFailed { failure, retryable, .. } => {
            assert_eq!(failure.message, "changes requested by bo at abc (2 comment(s))");
            assert!(*retryable);
        },
        other => panic!("expected the failure, got {other:?}"),
    }
}

#[test]
fn a_closed_pull_request_fails_the_gate_for_good() {
    let polled = PolledGate { review: ReviewOutcome::Closed, head_sha: "abc".to_string() };
    let PollStep::Resolved { events } = resolve_from_poll(&"review".to_string(), &polled) else {
        panic!("a closed pull request is a decision");
    };
    assert_eq!(events.len(), 3);
    match &events[2] {
        EventPayload::NodeFailed { failure, retryable, .. } => {
            assert_eq!(failure.message, "the pull request was closed without approval");
            assert!(!*retryable);
        },
        other => panic!("expected the failure, got {other:?}"),
    }
}

#[test]
fn an_internal_gate_answer_routes_finishes_or_aborts() {
    let node = "approve".to_string();
    let assignee = "lead".to_string();
    let options = vec!["ship".to_string(), "rework".to_string()];
    let on = vec![GateRoute { option: "rework".to_string(), target: "build".to_string() }];
    assert_eq!(
        internal_gate_consequence(&node, &assignee, &options, &on, None),
        GateConsequence::StillWaiting { reason: "gate `approve` (assignee: lead) awaits a decision".to_string() }
    );
    assert_eq!(
        internal_gate_consequence(&node, &assignee, &options, &on, Some(&answer(Some("rework"), None, None))),
        GateConsequence::Reroute {
            failure: "gate chose `rework` — re-routing to `build`".to_string(),
            to: "build".to_string(),
            cause: "gate `approve` chose `rework`".to_string(),
        }
    );
    assert_eq!(
        internal_gate_consequence(&node, &assignee, &options, &on, Some(&answer(Some("ship"), None, None))),
        GateConsequence::Finish { outcome: "ship".to_string() }
    );
    assert_eq!(
        internal_gate_consequence(&node, &assignee, &options, &on, Some(&answer(Some("abort"), Some("not today"), None))),
        GateConsequence::Abort { reason: "gate `approve` was resolved to abort: not today".to_string() }
    );
    let authored_abort = vec!["abort".to_string()];
    assert_eq!(
        internal_gate_consequence(&node, &assignee, &authored_abort, &vec![], Some(&answer(Some("abort"), None, None))),
        GateConsequence::Finish { outcome: "abort".to_string() }
    );
}

#[test]
fn a_console_answer_approves_or_rejects() {
    let summary = "no forge".to_string();
    assert_eq!(console_consequence(&summary, None), GateConsequence::StillWaiting { reason: summary.clone() });
    assert_eq!(
        console_consequence(&summary, Some(&answer(Some("approve"), None, Some("ana")))),
        GateConsequence::Finish { outcome: "approved from the console by ana".to_string() }
    );
    assert_eq!(
        console_consequence(&summary, Some(&answer(Some("reject"), None, None))),
        GateConsequence::Fail { outcome: "rejected from the console".to_string() }
    );
}

#[test]
fn the_latest_approval_and_publication_are_read_off_the_log() {
    let at = |seq, payload| StoredEvent { seq, node_id: Some("review".to_string()), body: EventBody::Known(payload) };
    let events = vec![
        at(1, EventPayload::NodeStarted),
        at(2, EventPayload::GateWaiting { external_ref: Some("pr-1".to_string()) }),
        at(3, EventPayload::GateResolved { resolution: GateResolution::Forge { resolved_by: Some("a".to_string()), approved_sha: Some("s1".to_string()) } }),
        at(4, EventPayload::GateWaiting { external_ref: None }),
        at(5, EventPayload::GateResolved { resolution: GateResolution::Forge { resolved_by: None, approved_sha: None } }),
        at(6, EventPayload::NodeStarted),
    ];
    assert_eq!(last_approved_sha(&events, &"review".to_string()), Some("s1".to_string()));
    assert_eq!(last_external_ref(&events, &"review".to_string()), Some("pr-1".to_string()));
    assert_eq!(start_attempt(&events, &"review".to_string()), 3);
    assert_eq!(start_attempt(&events, &"other".to_string()), 1);
}
