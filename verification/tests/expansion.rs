use yunta_engine::escalation::Fact;
use yunta_engine::events::Finding;
use yunta_engine::expansion::{
    denial_finding, expansion_escalation, person_outcome_events, rule_outcome_events, unresolved_diagnostic,
    ExpansionEvent, ExpansionMode, ExpansionRequest, RuleVerdict,
};
use yunta_engine::workflow::FindingSeverity;

fn request(precheck: Option<i32>, criterion: Option<&str>) -> ExpansionRequest {
    ExpansionRequest {
        task: "t1".to_string(),
        attempt: 2,
        paths: vec!["docs/**".to_string(), "README.md".to_string()],
        reason: "the docs describe the API".to_string(),
        proposed_criterion: criterion.map(|c| c.to_string()),
        precheck_exit: precheck,
    }
}

fn expected_denial(reason: &str) -> Finding {
    Finding {
        id: "scope-expansion-t1-2".to_string(),
        severity: FindingSeverity::Minor,
        title: "scope expansion denied for task `t1`".to_string(),
        location: "docs/**, README.md".to_string(),
        detail: format!("{reason} \u{2014} agent's stated reason: the docs describe the API"),
    }
}

#[test]
fn a_person_is_shown_the_request_and_what_the_engine_verified() {
    let escalation = expansion_escalation(&request(Some(1), Some("mdbook test")), ExpansionMode::Ask, Some(3), 1);
    assert_eq!(escalation.claim, "task `t1` requests scope expansion: the docs describe the API");
    assert_eq!(
        escalation.facts,
        vec![
            Fact::Labelled { label: "paths".to_string(), value: "docs/**, README.md".to_string() },
            Fact::Bare { text: "proposed criterion `mdbook test` pre-check exit: 1".to_string() },
            Fact::Labelled { label: "mode".to_string(), value: "ask".to_string() },
            Fact::Bare { text: "1/3 grant(s) used".to_string() },
        ]
    );
    let ids: Vec<&str> = escalation.options.iter().map(|o| o.id.as_str()).collect();
    assert_eq!(ids, vec!["grant", "deny"]);
    assert_eq!(escalation.options[0].label, "Grant access to docs/**, README.md");

    let uncapped = expansion_escalation(&request(None, None), ExpansionMode::Rules, None, 0);
    assert_eq!(uncapped.facts[1], Fact::Bare { text: "no criterion proposed".to_string() });
    assert_eq!(uncapped.facts[2], Fact::Labelled { label: "mode".to_string(), value: "rules".to_string() });
    assert_eq!(uncapped.facts[3], Fact::Bare { text: "0 grant(s) so far, no cap declared".to_string() });
    let unnamed = expansion_escalation(&request(Some(-2), None), ExpansionMode::Deny, None, 0);
    assert_eq!(unnamed.facts[1], Fact::Bare { text: "proposed criterion `?` pre-check exit: -2".to_string() });
}

#[test]
fn a_rule_grant_is_counted_and_a_denial_becomes_a_finding() {
    let mut granted = 4;
    let events = rule_outcome_events(&request(None, None), &RuleVerdict::Granted, &mut granted);
    assert_eq!(granted, 5);
    assert_eq!(events.len(), 2);
    assert!(matches!(&events[0], ExpansionEvent::Requested { task, .. } if task == "t1"));
    assert_eq!(
        events[1],
        ExpansionEvent::Granted {
            task: "t1".to_string(),
            paths: vec!["docs/**".to_string(), "README.md".to_string()],
            by_person: false,
            count_this_run: 5,
        }
    );
    let events = rule_outcome_events(&request(None, None), &RuleVerdict::Denied { reason: "outside policy".to_string() }, &mut granted);
    assert_eq!(granted, 5);
    assert_eq!(
        events[1..].to_vec(),
        vec![
            ExpansionEvent::Denied { task: "t1".to_string(), by_person: false, count_this_run: 5, reason: "outside policy".to_string() },
            ExpansionEvent::FindingPosted { finding: expected_denial("outside policy") },
        ]
    );
    let events = rule_outcome_events(&request(None, None), &RuleVerdict::Escalate, &mut granted);
    assert_eq!(events.len(), 1);
    assert_eq!(granted, 5);
}

#[test]
fn anything_but_an_explicit_grant_denies_and_a_blocked_task_retries() {
    let mut granted = 0;
    let events = person_outcome_events(&request(None, None), &"grant".to_string(), None, true, &mut granted);
    assert_eq!(granted, 1);
    assert_eq!(
        events,
        vec![
            ExpansionEvent::Granted {
                task: "t1".to_string(),
                paths: vec!["docs/**".to_string(), "README.md".to_string()],
                by_person: true,
                count_this_run: 1,
            },
            ExpansionEvent::TaskPending { task: "t1".to_string() },
        ]
    );
    let events = person_outcome_events(&request(None, None), &"maybe".to_string(), None, false, &mut granted);
    let default_reason = format!("denied by a human at the {}", "gate");
    assert_eq!(granted, 1);
    assert_eq!(
        events,
        vec![
            ExpansionEvent::Denied {
                task: "t1".to_string(),
                by_person: true,
                count_this_run: 1,
                reason: default_reason.clone(),
            },
            ExpansionEvent::FindingPosted { finding: expected_denial(&default_reason) },
        ]
    );
    let events = person_outcome_events(&request(None, None), &"deny".to_string(), Some("not now".to_string()), true, &mut granted);
    assert_eq!(events.len(), 3);
    assert_eq!(events[1], ExpansionEvent::FindingPosted { finding: expected_denial("not now") });
    assert_eq!(events[2], ExpansionEvent::TaskPending { task: "t1".to_string() });
}

#[test]
fn a_denial_finding_uses_the_agents_own_words() {
    assert_eq!(denial_finding(&request(None, None), "no"), expected_denial("no"));
}

#[test]
fn requests_still_owed_a_decision_are_named_task_by_task() {
    assert_eq!(unresolved_diagnostic(&vec![]), None);
    assert_eq!(
        unresolved_diagnostic(&vec!["t1".to_string(), "t2".to_string()]),
        Some(
            "a scope expansion request needs a human decision before this run can continue; task `t1` has a scope expansion request awaiting a human decision; task `t2` has a scope expansion request awaiting a human decision"
                .to_string()
        )
    );
}
