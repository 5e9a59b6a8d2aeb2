use yunta_engine::events::{EventBody, EventPayload, StoredEvent, TaskStatus};
use yunta_engine::ledger::{Failure, GateResolution, NodeState, TokenUsage};
use yunta_engine::replay::{unknown_kind_counts, ReplayError, RunState, UnknownKindCount};

fn event(seq: u64, node: Option<&str>, payload: EventPayload) -> StoredEvent {
    StoredEvent { seq, node_id: node.map(|n| n.to_string()), body: EventBody::Known(payload) }
}

fn unknown(seq: u64, kind: &str) -> StoredEvent {
    StoredEvent { seq, node_id: None, body: EventBody::Unknown { kind: kind.to_string() } }
}

fn tokens(input: u64, output: u64) -> TokenUsage {
    TokenUsage { input, output }
}

fn finished(seq: u64, node: &str, outcome: &str, spent: TokenUsage) -> StoredEvent {
    event(seq, Some(node), EventPayload::NodeFinished { outcome: outcome.to_string(), tokens: spent })
}

fn state_of<'a>(state: &'a RunState, node: &str) -> Option<&'a NodeState> {
    state.nodes.state(&node.to_string())
}

#[test]
fn a_started_and_finished_node_is_finished_with_its_tokens_closed() {
    let state = yunta_engine::replay::derive(&vec![
        event(1, Some("build"), EventPayload::NodeStarted),
        finished(2, "build", "ok", tokens(10, 5)),
    ]);
    assert_eq!(state.broken, None);
    assert_eq!(state_of(&state, "build"), Some(&NodeState::Finished { outcome: "ok".to_string() }));
    assert_eq!(state.nodes.attempts(&"build".to_string()), 1);
    assert_eq!(state.total_tokens(), tokens(10, 5));
    assert!(state.woken());
}

#[test]
fn a_finish_without_a_start_breaks_the_log_at_that_event() {
    let state = yunta_engine::replay::derive(&vec![
        event(1, Some("a"), EventPayload::NodeStarted),
        finished(2, "b", "ok", tokens(0, 0)),
        event(3, Some("c"), EventPayload::NodeStarted),
    ]);
    assert_eq!(
        state.broken,
        Some("seq 2: node `b` got node_finished without a matching node_started".to_string())
    );
    assert_eq!(state_of(&state, "a"), Some(&NodeState::Running));
    assert_eq!(state_of(&state, "c"), None);
}

#[test]
fn a_start_without_a_node_names_the_kind_it_lacks() {
    let state = yunta_engine::replay::derive(&vec![event(7, None, EventPayload::NodeStarted)]);
    assert_eq!(state.broken, Some("seq 7: `node_started` is missing node_id".to_string()));
}

#[test]
fn a_gate_wait_and_its_resolution_restore_the_node() {
    let mut state = RunState::new();
    state.apply(&event(1, Some("review"), EventPayload::NodeStarted)).unwrap();
    state
        .apply(&event(2, Some("review"), EventPayload::NodeFailed { failure: Failure { message: "lint".to_string() }, retryable: true, tokens: tokens(1, 1), problems: vec![] }))
        .unwrap();
    state.apply(&event(3, Some("review"), EventPayload::GateWaiting { external_ref: Some("pr-7".to_string()) })).unwrap();
    assert_eq!(state_of(&state, "review"), Some(&NodeState::Waiting { external_ref: Some("pr-7".to_string()) }));
    state
        .apply(&event(4, Some("review"), EventPayload::GateResolved { resolution: GateResolution::Chosen { option: "retry".to_string() } }))
        .unwrap();
    assert_eq!(state_of(&state, "review"), Some(&NodeState::Failed { failure: Failure { message: "lint".to_string() } }));
    assert_eq!(state.gates.last_external_ref(&"review".to_string()), Some(&"pr-7".to_string()));
}

#[test]
fn answered_questions_reopen_the_node_running_and_owed_a_terminal() {
    let state = yunta_engine::replay::derive(&vec![
        event(1, Some("plan"), EventPayload::NodeStarted),
        event(2, Some("plan"), EventPayload::QuestionsAsked { tokens_used: tokens(7, 3) }),
        event(3, Some("plan"), EventPayload::QuestionsAnswered),
    ]);
    assert_eq!(state.broken, None);
    assert_eq!(state_of(&state, "plan"), Some(&NodeState::Running));
    assert_eq!(state.total_tokens(), tokens(7, 3));
    assert!(state.answered_unfinished(&"plan".to_string()));
}

#[test]
fn an_answer_without_questions_breaks_the_log() {
    let mut state = RunState::new();
    state.apply(&event(1, Some("plan"), EventPayload::NodeStarted)).unwrap();
    assert_eq!(
        state.apply(&event(2, Some("plan"), EventPayload::QuestionsAnswered)),
        Err(ReplayError::AnsweredWithoutAsk { seq: 2, node: "plan".to_string() })
    );
    assert_eq!(state_of(&state, "plan"), Some(&NodeState::Running));
}

#[test]
fn a_status_for_an_unregistered_task_breaks_the_log() {
    let state = yunta_engine::replay::derive(&vec![
        event(1, Some("loop"), EventPayload::TaskRegistered { task: "t1".to_string(), criteria: vec![], scope: vec![] }),
        event(2, Some("loop"), EventPayload::TaskStatusChanged { task: "t1".to_string(), status: TaskStatus::Running, caused_by: 0, commit: None }),
        event(3, Some("loop"), EventPayload::TaskStatusChanged { task: "t2".to_string(), status: TaskStatus::Done, caused_by: 0, commit: None }),
    ]);
    assert_eq!(
        state.broken,
        Some("seq 3: task `t2` got task_status_changed without a prior task_registered".to_string())
    );
    assert_eq!(state.tasks.status(&"t1".to_string()), Some(TaskStatus::Running));
    assert_eq!(state.tasks.get(&"t1".to_string()).unwrap().attempts, 1);
}

#[test]
fn unknown_kinds_are_named_and_counted_by_name() {
    let state = yunta_engine::replay::derive(&vec![
        unknown(1, "zeta_happened"),
        event(2, Some("a"), EventPayload::NodeStarted),
        unknown(3, "alpha_happened"),
        unknown(4, "zeta_happened"),
    ]);
    assert_eq!(state.broken, None);
    assert_eq!(state_of(&state, "a"), Some(&NodeState::Running));
    assert_eq!(
        unknown_kind_counts(&state),
        vec![
            UnknownKindCount { kind: "alpha_happened".to_string(), events: 1 },
            UnknownKindCount { kind: "zeta_happened".to_string(), events: 2 },
        ]
    );
}

#[test]
fn a_log_read_in_full_has_no_unknown_kinds() {
    let state = yunta_engine::replay::derive(&vec![event(1, Some("a"), EventPayload::NodeStarted)]);
    assert!(unknown_kind_counts(&state).is_empty());
    assert!(!RunState::new().woken());
}

#[test]
fn a_decision_recorded_while_parked_is_pre_seeded_until_consumed() {
    let choice = GateResolution::Chosen { option: "retry".to_string() };
    let mut events = vec![
        event(1, Some("fix"), EventPayload::NodeStarted),
        event(2, Some("fix"), EventPayload::NodeFailed { failure: Failure { message: "boom".to_string() }, retryable: true, tokens: tokens(0, 0), problems: vec![] }),
        event(3, None, EventPayload::RunPaused),
        event(4, Some("fix"), EventPayload::GateWaiting { external_ref: None }),
        event(5, Some("fix"), EventPayload::GateResolved { resolution: choice.clone() }),
    ];
    let state = yunta_engine::replay::derive(&events);
    assert_eq!(state.pre_seeded(&"fix".to_string()), Some(&choice));
    events.push(event(6, Some("fix"), EventPayload::NodeRerouted { to: "lint".to_string() }));
    let state = yunta_engine::replay::derive(&events);
    assert_eq!(state.pre_seeded(&"fix".to_string()), None);
}
