use yunta_engine::events::{DocumentProblem, EventBody, EventPayload, StoredEvent, TerminalState};
use yunta_engine::ledger::{Failure, TokenUsage};
use yunta_engine::receipt::{build_receipt, EventChainStatus};
use yunta_engine::render::render_markdown;
use yunta_engine::tally::{diagnostic_counts, self_checks, sorted_counts, DiagnosticCount};
use yunta_engine::workflow::{ArtifactKind, ArtifactSpec, Node, NodeKind, PromptSource};

fn event(seq: u64, node: Option<&str>, payload: EventPayload) -> StoredEvent {
    StoredEvent { seq, node_id: node.map(|n| n.to_string()), body: EventBody::Known(payload) }
}

fn problem(kind: Option<ArtifactKind>, code: &str) -> DocumentProblem {
    DocumentProblem { kind, code: code.to_string() }
}

fn count(kind: Option<ArtifactKind>, code: &str, occurrences: usize) -> DiagnosticCount {
    DiagnosticCount { kind, code: code.to_string(), occurrences }
}

fn failed(seq: u64, node: &str, problems: Vec<DocumentProblem>) -> StoredEvent {
    event(seq, Some(node), EventPayload::NodeFailed { failure: Failure { message: "documents".to_string() }, retryable: true, tokens: TokenUsage::default(), problems })
}

#[test]
fn problems_are_counted_most_frequent_first_then_by_code_then_by_kind() {
    let problems = vec![
        problem(Some(ArtifactKind::TaskLedger), "duplicate-id"),
        problem(None, "artifact-missing"),
        problem(Some(ArtifactKind::Questions), "duplicate-id"),
        problem(Some(ArtifactKind::TaskLedger), "duplicate-id"),
        problem(None, "artifact-missing"),
        problem(Some(ArtifactKind::Findings), "duplicate-id"),
        problem(Some(ArtifactKind::Findings), "empty-text"),
    ];
    assert_eq!(
        sorted_counts(&problems),
        vec![
            count(None, "artifact-missing", 2),
            count(Some(ArtifactKind::TaskLedger), "duplicate-id", 2),
            count(Some(ArtifactKind::Findings), "duplicate-id", 1),
            count(Some(ArtifactKind::Questions), "duplicate-id", 1),
            count(Some(ArtifactKind::Findings), "empty-text", 1),
        ]
    );
    assert_eq!(sorted_counts(&vec![]), vec![]);
}

#[test]
fn a_count_names_its_code_its_document_and_how_often() {
    assert_eq!(count(Some(ArtifactKind::TaskLedger), "duplicate-id", 3).describe(), "`duplicate-id` in the task ledger \u{d7}3");
    assert_eq!(count(None, "artifact-missing", 1).describe(), "`artifact-missing` \u{d7}1");
}

#[test]
fn only_node_failures_over_documents_are_counted() {
    let events = vec![
        failed(1, "plan", vec![problem(Some(ArtifactKind::TaskLedger), "duplicate-id")]),
        event(2, Some("plan"), EventPayload::RunPaused),
        failed(3, "plan", vec![problem(Some(ArtifactKind::TaskLedger), "duplicate-id"), problem(None, "artifact-missing")]),
        failed(4, "lint", vec![]),
    ];
    assert_eq!(
        diagnostic_counts(&events),
        vec![count(Some(ArtifactKind::TaskLedger), "duplicate-id", 2), count(None, "artifact-missing", 1)]
    );
}

fn typed(id: &str) -> Node {
    let mut node = Node::new(id.to_string(), NodeKind::Prompt { prompt: PromptSource::Inline("p".to_string()) });
    node.artifacts = vec![ArtifactSpec::Typed { name: "tasks.yaml".to_string(), kind: ArtifactKind::TaskLedger }];
    node
}

#[test]
fn self_checks_count_what_sessions_checked_and_who_never_did() {
    let nodes = vec![typed("plan"), typed("review"), Node::new("lint".to_string(), NodeKind::Bash { run: "x".to_string() })];
    let events = vec![
        event(1, Some("plan"), EventPayload::ArtifactChecked { kind: Some(ArtifactKind::TaskLedger), problems: Some(vec!["duplicate-id".to_string()]) }),
        event(2, Some("plan"), EventPayload::ArtifactChecked { kind: Some(ArtifactKind::TaskLedger), problems: None }),
        event(3, Some("plan"), EventPayload::ArtifactChecked { kind: Some(ArtifactKind::TaskLedger), problems: Some(vec!["duplicate-id".to_string(), "empty-title".to_string()]) }),
    ];
    let summary = self_checks(&events, &nodes);
    assert_eq!(summary.checks, 3);
    assert_eq!(summary.clean, 1);
    assert_eq!(summary.nodes_that_never_checked, vec!["review".to_string()]);
    assert_eq!(
        summary.corrected,
        vec![count(Some(ArtifactKind::TaskLedger), "duplicate-id", 2), count(Some(ArtifactKind::TaskLedger), "empty-title", 1)]
    );
}

#[test]
fn a_receipt_reports_document_problems_and_self_checks() {
    let nodes = vec![typed("plan"), typed("review")];
    let events = vec![
        event(1, Some("plan"), EventPayload::NodeStarted),
        event(2, Some("plan"), EventPayload::ArtifactChecked { kind: Some(ArtifactKind::TaskLedger), problems: Some(vec!["duplicate-id".to_string()]) }),
        failed(3, "plan", vec![problem(None, "artifact-missing")]),
        event(4, None, EventPayload::RunFinished { terminal_state: TerminalState::Failed, tokens: TokenUsage::default() }),
    ];
    let receipt = build_receipt(
        &"r1".to_string(),
        &"wf".to_string(),
        &nodes,
        &"full".to_string(),
        &events,
        EventChainStatus::Intact { events: 4 },
    )
    .unwrap();
    assert_eq!(receipt.diagnostics, vec![count(None, "artifact-missing", 1)]);
    assert_eq!(receipt.self_checks.checks, 1);
    let markdown = render_markdown(&receipt, None);
    assert!(markdown.contains("- \u{2717} document problem(s) reported during the run: `artifact-missing` \u{d7}1\n"));
    assert!(markdown.contains(
        "- \u{2717} 1 self-check(s) before close, 0 clean \u{2014} corrected in place: `duplicate-id` in the task ledger \u{d7}1\n"
    ));
    assert!(markdown.contains("- \u{2717} node(s) produced an interpreted artifact without checking it: `review`\n"));
}
