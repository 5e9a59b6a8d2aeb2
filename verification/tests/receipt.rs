use yunta_engine::events::{CriterionResult, EventBody, EventPayload, Phase, StoredEvent, TerminalState};
use yunta_engine::ledger::{Failure, TokenUsage};
use yunta_engine::receipt::{
    baseline_summary, build_receipt, count_reroutes, criteria_summary, runner_usage, scope_summary, CriterionEntry,
    EventChainStatus, ReceiptError, RunnerUsage,
};
use yunta_engine::render::{fan_out_groups, join, mark, render_markdown};
use yunta_engine::workflow::{CheckBuiltin, Node, NodeKind};

fn event(seq: u64, node: Option<&str>, payload: EventPayload) -> StoredEvent {
    StoredEvent { seq, node_id: node.map(|n| n.to_string()), body: EventBody::Known(payload) }
}

fn check(seq: u64, task: &str, phase: Phase, results: &[(&str, i32)]) -> StoredEvent {
    event(
        seq,
        Some("loop"),
        EventPayload::CriteriaChecked {
            task_id: task.to_string(),
            phase,
            results: results.iter().map(|(cmd, code)| CriterionResult { cmd: cmd.to_string(), exit_code: *code, reused: false }).collect(),
        },
    )
}

fn entry(task: &str, cmd: &str, code: i32) -> CriterionEntry {
    CriterionEntry { task_id: task.to_string(), cmd: cmd.to_string(), exit_code: code }
}

#[test]
fn only_the_latest_post_check_of_a_task_is_certified() {
    let events = vec![
        check(1, "t2", Phase::Post, &[("cargo test", 1)]),
        check(2, "t1", Phase::Post, &[("z check", 0), ("a check", 1)]),
        check(3, "t2", Phase::Pre, &[("cargo test", 1)]),
        check(4, "t2", Phase::Post, &[("cargo test", 0)]),
    ];
    let summary = criteria_summary(&events);
    assert_eq!(summary.entries, vec![entry("t1", "a check", 1), entry("t1", "z check", 0), entry("t2", "cargo test", 0)]);
    assert_eq!(summary.total, 3);
    assert_eq!(summary.green, 2);
}

#[test]
fn scope_counts_each_file_once_and_sorts_violations_as_paths() {
    let events = vec![
        event(1, Some("loop"), EventPayload::ScopeChecked {
            diff: vec!["src/a.rs".to_string(), "src/b.rs".to_string()],
            violations: vec!["a-b".to_string()],
        }),
        event(2, Some("loop"), EventPayload::ScopeChecked {
            diff: vec!["src/a.rs".to_string()],
            violations: vec!["a/b".to_string(), "a-b".to_string()],
        }),
    ];
    let summary = scope_summary(&events);
    assert_eq!(summary.files_touched, 2);
    assert_eq!(summary.violations, vec!["a/b".to_string(), "a-b".to_string()]);
}

#[test]
fn a_node_appears_once_among_the_runners_it_resolved() {
    let resolved = |seq, node: &str, adapter: &str| {
        event(seq, Some(node), EventPayload::RunnerResolved {
            runner: "critic".to_string(),
            adapter: adapter.to_string(),
            model: "m".to_string(),
        })
    };
    let events = vec![resolved(1, "review@a", "alpha"), resolved(2, "review@b", "beta"), resolved(3, "review@a", "other"), resolved(4, "build", "alpha")];
    let usage = runner_usage(&events);
    assert_eq!(usage.len(), 3);
    assert_eq!(usage[0].adapter, "alpha");
    assert_eq!(usage[2].node_id, "build");
    let groups = fan_out_groups(&usage);
    assert_eq!(groups.len(), 1);
    assert_eq!(groups[0].0, "review");
    assert_eq!(groups[0].1.iter().map(|u| u.adapter.clone()).collect::<Vec<_>>(), vec!["alpha".to_string(), "beta".to_string()]);
}

#[test]
fn a_lone_fan_out_sibling_is_no_review_group() {
    let usage = vec![RunnerUsage {
        node_id: "review@a".to_string(),
        runner: "r".to_string(),
        adapter: "alpha".to_string(),
        model: "m".to_string(),
    }];
    assert!(fan_out_groups(&usage).is_empty());
}

fn compare_node(id: &str) -> Node {
    Node::new(id.to_string(), NodeKind::Check(CheckBuiltin::BaselineCompare))
}

#[test]
fn the_capturing_node_is_not_a_comparison() {
    let nodes = vec![compare_node("capture"), compare_node("after-fix"), compare_node("after-refactor")];
    let events = vec![
        event(1, Some("capture"), EventPayload::NodeStarted),
        event(2, Some("capture"), EventPayload::BaselineCaptured { command: "cargo test".to_string(), hash: "0123456789abcdef".to_string() }),
        event(3, Some("capture"), EventPayload::NodeFinished { outcome: "captured".to_string(), tokens: TokenUsage::default() }),
        event(4, Some("after-fix"), EventPayload::NodeStarted),
        event(5, Some("after-fix"), EventPayload::NodeFinished { outcome: "same".to_string(), tokens: TokenUsage::default() }),
        event(6, Some("after-refactor"), EventPayload::NodeStarted),
        event(7, Some("after-refactor"), EventPayload::NodeFailed { failure: Failure { message: "regressed".to_string() }, retryable: true, tokens: TokenUsage::default(), problems: vec![] }),
    ];
    let baseline = baseline_summary(&nodes, &events).expect("a captured baseline");
    assert_eq!(baseline.suite, "cargo test");
    assert_eq!(baseline.compared, 2);
    assert_eq!(baseline.regressions, 1);
    assert_eq!(baseline_summary(&nodes, &vec![]), None);
}

#[test]
fn an_unfinished_run_has_no_receipt() {
    let built = build_receipt(
        &"r1".to_string(),
        &"wf".to_string(),
        &vec![],
        &"standard".to_string(),
        &vec![event(1, Some("a"), EventPayload::NodeStarted)],
        EventChainStatus::Intact { events: 1 },
    );
    assert_eq!(built, Err(ReceiptError::NotFinished { run_id: "r1".to_string() }));
}

#[test]
fn a_finished_run_renders_its_receipt() {
    let events = vec![
        event(1, Some("build"), EventPayload::NodeStarted),
        event(2, Some("build"), EventPayload::NodeFailed { failure: Failure { message: "x".to_string() }, retryable: true, tokens: TokenUsage::default(), problems: vec![] }),
        event(3, Some("build"), EventPayload::NodeRerouted { to: "fix".to_string() }),
        check(4, "t1", Phase::Post, &[("cargo test", 0)]),
        event(5, None, EventPayload::RunFinished { terminal_state: TerminalState::Completed, tokens: TokenUsage { input: 120, output: 30 } }),
        StoredEvent { seq: 6, node_id: None, body: EventBody::Unknown { kind: "future_kind".to_string() } },
    ];
    let receipt = build_receipt(
        &"r1".to_string(),
        &"wf".to_string(),
        &vec![],
        &"standard".to_string(),
        &events,
        EventChainStatus::Intact { events: 6 },
    )
    .expect("a finished run");
    assert_eq!(receipt.cost.reroutes, 1);
    assert_eq!(count_reroutes(&events), 1);
    let markdown = render_markdown(&receipt, Some(&"120.0".to_string()));
    assert_eq!(
        markdown,
        "# Verified Work Receipt — run r1\n\n\
         workflow: `wf` · mode: `standard` · state: Completed\n\n\
         - ✓ 1/1 criteria green (commands + exit codes below)\n\
         - ✗ event kind(s) this binary does not know — interpreted partially: `future_kind` ×1\n\
         - baseline: not used by this workflow\n\
         - ✓ scope: 0 file(s) touched, 0 violation(s)\n\
         - 0 runner(s) used, no fan-out review\n\
         - cost: 150 tokens (120 in / 30 out) · CPTV: 120.0 tokens/task · 1 reroute(s)\n\
         - ✓ event chain: 6 event(s), hash-linked, replayable\n\
         \n## Criteria\n\n\
         - ✓ `t1` — `cargo test` (exit 0)\n"
    );
}

#[test]
fn a_broken_chain_and_failing_criteria_are_marked() {
    let events = vec![
        check(1, "t1", Phase::Post, &[("cargo test", -1)]),
        event(2, None, EventPayload::RunFinished { terminal_state: TerminalState::Failed, tokens: TokenUsage::default() }),
    ];
    let receipt = build_receipt(
        &"r2".to_string(),
        &"wf".to_string(),
        &vec![],
        &"quick".to_string(),
        &events,
        EventChainStatus::Broken { seq: 2, detail: "hash mismatch".to_string() },
    )
    .unwrap();
    let markdown = render_markdown(&receipt, None);
    assert!(markdown.contains("- ✗ 0/1 criteria green"));
    assert!(markdown.contains("- ✗ event chain BROKEN at seq 2: hash mismatch\n"));
    assert!(markdown.contains("- ✗ `t1` — `cargo test` (exit -1)\n"));
    assert!(markdown.contains("- cost: 0 tokens (0 in / 0 out) · 0 reroute(s)\n"));
}

#[test]
fn marks_and_joins() {
    assert_eq!(mark(true), "✓");
    assert_eq!(mark(false), "✗");
    assert_eq!(join(&vec!["a".to_string(), "b".to_string()], ", "), "a, b");
    assert_eq!(join(&vec![], ", "), "");
}

fn baseline_line_for(hash: &str) -> String {
    let nodes = vec![compare_node("capture"), compare_node("again")];
    let events = vec![
        event(1, Some("capture"), EventPayload::BaselineCaptured { command: "make check".to_string(), hash: hash.to_string() }),
        event(2, Some("again"), EventPayload::NodeStarted),
        event(3, Some("again"), EventPayload::NodeFinished { outcome: "same".to_string(), tokens: TokenUsage::default() }),
        event(4, None, EventPayload::RunFinished { terminal_state: TerminalState::Completed, tokens: TokenUsage::default() }),
    ];
    let receipt = build_receipt(&"r3".to_string(), &"wf".to_string(), &nodes, &"standard".to_string(), &events, EventChainStatus::Intact { events: 4 })
        .expect("a finished run");
    let markdown = render_markdown(&receipt, None);
    markdown.lines().find(|line| line.contains("baseline")).expect("a baseline line").to_string()
}

#[test]
fn the_baseline_hash_is_cut_at_twelve_bytes() {
    assert_eq!(
        baseline_line_for("0123456789abcdef"),
        "- ✓ 0 regression(s) vs baseline across 1 comparison(s) (suite `make check`, hash `0123456789ab`)"
    );
    assert_eq!(
        baseline_line_for("éééééézz"),
        "- ✓ 0 regression(s) vs baseline across 1 comparison(s) (suite `make check`, hash `éééééé`)"
    );
    assert_eq!(
        baseline_line_for("aéééééé"),
        "- ✓ 0 regression(s) vs baseline across 1 comparison(s) (suite `make check`, hash ``)"
    );
    assert_eq!(
        baseline_line_for("short"),
        "- ✓ 0 regression(s) vs baseline across 1 comparison(s) (suite `make check`, hash ``)"
    );
}
