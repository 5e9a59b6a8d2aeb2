use yunta_engine::escalation::{answer_parked_gate, current_escalation, ResolveGateError};
use yunta_engine::events::{EventBody, EventPayload, StoredEvent};
use yunta_engine::ledger::{Failure, TokenUsage};
use yunta_engine::schedule::{attempts_within_bounds, decide, next_mode_after, Decision, NodeAttempt, PauseReason, Policy};
use yunta_engine::workflow::{DefaultOnFailure, GateRoute, ModeEntry, ModeInclude, Node, NodeKind, OnFailure, OnInterrupt, Workflow};

fn event(seq: u64, node: Option<&str>, payload: EventPayload) -> StoredEvent {
    StoredEvent { seq, node_id: node.map(|n| n.to_string()), body: EventBody::Known(payload) }
}

fn bash(id: &str, deps: &[&str]) -> Node {
    let mut node = Node::new(id.to_string(), NodeKind::Bash { run: "true".to_string() });
    node.depends_on = deps.iter().map(|d| d.to_string()).collect();
    node
}

fn workflow(nodes: Vec<Node>) -> Workflow {
    Workflow {
        name: "wf".to_string(),
        nodes,
        modes: Some(vec![
            ModeEntry { name: "quick".to_string(), selects: ModeInclude::All },
            ModeEntry { name: "full".to_string(), selects: ModeInclude::All },
        ]),
    }
}

fn policy(wf: &Workflow, on_failure: DefaultOnFailure) -> Policy {
    Policy::of(wf, 4, OnInterrupt::RestartNode, on_failure, &"quick".to_string())
}

fn started_and_finished(seq: u64, node: &str) -> Vec<StoredEvent> {
    vec![
        event(seq, Some(node), EventPayload::NodeStarted),
        event(seq + 1, Some(node), EventPayload::NodeFinished { outcome: "ok".to_string(), tokens: TokenUsage::default() }),
    ]
}

#[test]
fn a_fresh_run_executes_what_has_no_dependencies() {
    let wf = workflow(vec![bash("start", &[]), bash("other", &[]), bash("build", &["start"])]);
    let state = yunta_engine::replay::derive(&vec![]);
    assert!(attempts_within_bounds(&state));
    assert_eq!(
        decide(&wf, &state, &policy(&wf, DefaultOnFailure::Pause)),
        Decision::Execute(vec![
            NodeAttempt { node: "start".to_string(), attempt: 1 },
            NodeAttempt { node: "other".to_string(), attempt: 1 },
        ])
    );
}

#[test]
fn a_node_runs_once_its_dependencies_finished_and_the_run_then_finishes() {
    let wf = workflow(vec![bash("start", &[]), bash("build", &["start"])]);
    let mut events = started_and_finished(1, "start");
    let state = yunta_engine::replay::derive(&events);
    assert_eq!(
        decide(&wf, &state, &policy(&wf, DefaultOnFailure::Pause)),
        Decision::Execute(vec![NodeAttempt { node: "build".to_string(), attempt: 1 }])
    );
    events.extend(started_and_finished(3, "build"));
    let state = yunta_engine::replay::derive(&events);
    assert_eq!(decide(&wf, &state, &policy(&wf, DefaultOnFailure::Pause)), Decision::Finish);
}

#[test]
fn a_failure_reroutes_to_its_corrective_node_then_asks_when_exhausted() {
    let mut lint = bash("lint", &[]);
    lint.on_failure = Some(OnFailure { goto: "fix".to_string(), max_reroutes: 1 });
    let wf = workflow(vec![lint, bash("fix", &[])]);
    let mut events = vec![
        event(1, Some("lint"), EventPayload::NodeStarted),
        event(2, Some("lint"), EventPayload::NodeFailed { failure: Failure { message: "exit 1".to_string() }, retryable: true, tokens: TokenUsage::default(), problems: vec![] }),
    ];
    let state = yunta_engine::replay::derive(&events);
    let p = policy(&wf, DefaultOnFailure::Pause);
    match decide(&wf, &state, &p) {
        Decision::Reroute { from, to, attempt, max_reroutes, cause } => {
            assert_eq!((from.as_str(), to.as_str(), attempt, max_reroutes), ("lint", "fix", 1, 1));
            assert_eq!(cause.message, "exit 1");
        },
        other => panic!("expected a re-route, got {other:?}"),
    }
    events.push(event(3, Some("lint"), EventPayload::NodeRerouted { to: "fix".to_string() }));
    events.extend(started_and_finished(4, "fix"));
    events.push(event(6, Some("lint"), EventPayload::NodeStarted));
    events.push(event(7, Some("lint"), EventPayload::NodeFailed { failure: Failure { message: "exit 1".to_string() }, retryable: true, tokens: TokenUsage::default(), problems: vec![] }));
    let state = yunta_engine::replay::derive(&events);
    match decide(&wf, &state, &p) {
        Decision::GateExhaustedReroutes { node, goto, max_reroutes, .. } => {
            assert_eq!((node.as_str(), goto.as_str(), max_reroutes), ("lint", "fix", 1));
        },
        other => panic!("expected an escalation, got {other:?}"),
    }
    let (node, escalation) = current_escalation(&wf, &state, &p, &"quick".to_string()).expect("an escalation to rebuild");
    assert_eq!(node, "lint");
    assert_eq!(escalation.claim, "node `lint` failed and its 1 re-route(s) to `fix` are exhausted");
    let ids: Vec<String> = escalation.options.iter().map(|o| o.id.clone()).collect();
    assert_eq!(ids, vec!["retry".to_string(), "abort".to_string(), "promote".to_string()]);
    assert_eq!(escalation.menu(), "`retry`, `abort`, `promote`");

    assert_eq!(answer_parked_gate(&wf, &events, &p, &"quick".to_string(), &"retry".to_string()), Err(ResolveGateError::NotPaused));
    events.push(event(8, None, EventPayload::RunPaused));
    let answered = answer_parked_gate(&wf, &events, &p, &"quick".to_string(), &"retry".to_string()).expect("a parked escalation");
    assert_eq!(answered.0, "lint");
    assert_eq!(
        answer_parked_gate(&wf, &events, &p, &"quick".to_string(), &"ship-it".to_string()),
        Err(ResolveGateError::UnknownOption {
            chosen: "ship-it".to_string(),
            declared: "`retry`, `abort`, `promote`".to_string()
        })
    );
}

#[test]
fn an_unrouted_failure_pauses_or_fails_the_run_as_the_defaults_say() {
    let wf = workflow(vec![bash("lint", &[])]);
    let events = vec![
        event(1, Some("lint"), EventPayload::NodeStarted),
        event(2, Some("lint"), EventPayload::NodeFailed { failure: Failure { message: "exit 1".to_string() }, retryable: true, tokens: TokenUsage::default(), problems: vec![] }),
    ];
    let state = yunta_engine::replay::derive(&events);
    let expected = PauseReason::NodeFailed { node: "lint".to_string(), failure: Failure { message: "exit 1".to_string() } };
    assert_eq!(decide(&wf, &state, &policy(&wf, DefaultOnFailure::Pause)), Decision::Pause { reason: expected.clone() });
    assert_eq!(decide(&wf, &state, &policy(&wf, DefaultOnFailure::Abort)), Decision::Fail { reason: expected });
}

#[test]
fn a_broken_log_is_reported_before_anything_else() {
    let wf = workflow(vec![bash("lint", &[])]);
    let state = yunta_engine::replay::derive(&vec![event(
        1,
        Some("lint"),
        EventPayload::NodeFinished { outcome: "ok".to_string(), tokens: TokenUsage::default() },
    )]);
    assert_eq!(
        decide(&wf, &state, &policy(&wf, DefaultOnFailure::Pause)),
        Decision::Broken { diagnostic: "seq 1: node `lint` got node_finished without a matching node_started".to_string() }
    );
}

#[test]
fn an_internal_gate_is_asked_here_with_its_declared_options() {
    let gate = Node::new(
        "approve".to_string(),
        NodeKind::Gate {
            assignee: "lead".to_string(),
            message: None,
            options: vec!["ship".to_string(), "rework".to_string()],
            on: vec![GateRoute { option: "rework".to_string(), target: "build".to_string() }],
            external: false,
        },
    );
    let mut gate = gate;
    gate.depends_on = vec!["build".to_string()];
    let wf = workflow(vec![bash("build", &[]), gate]);
    let state = yunta_engine::replay::derive(&started_and_finished(1, "build"));
    let p = policy(&wf, DefaultOnFailure::Pause);
    assert_eq!(decide(&wf, &state, &p), Decision::ResolveInternalGate { node: "approve".to_string() });
    let (_, escalation) = current_escalation(&wf, &state, &p, &"quick".to_string()).unwrap();
    assert_eq!(escalation.claim, "gate `approve` needs a decision");
    let ids: Vec<String> = escalation.options.iter().map(|o| o.id.clone()).collect();
    assert_eq!(ids, vec!["ship".to_string(), "rework".to_string(), "abort".to_string()]);
    assert_eq!(escalation.options[1].tradeoff, "re-routes to `build` and asks again once it completes");
}

#[test]
fn the_mode_after_the_current_one_is_the_promotion_target() {
    let wf = workflow(vec![bash("a", &[])]);
    assert_eq!(next_mode_after(&wf, &"quick".to_string()), Some("full".to_string()));
    assert_eq!(next_mode_after(&wf, &"full".to_string()), None);
}
