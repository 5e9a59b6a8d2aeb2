use yunta_engine::close::{
    hook_failure, findings_to_derive, pending_questions, questions_failure, record_artifacts, scope_failure,
    undeclared_failure, ArtifactContent, HookPhase, HookRun, PlannedEvent, TaskEntry, VerifiedArtifact,
};
use yunta_engine::escalation::{pre_seeded_resolution, Escalation, GateOption};
use yunta_engine::events::{EventBody, EventPayload, Finding, StoredEvent, TaskStatus};
use yunta_engine::ledger::{Failure, GateResolution, TokenUsage};
use yunta_engine::manifest::expand_implicit_dependencies;
use yunta_engine::questions::{AnswerType, Question};
use yunta_engine::reopen::{after_retry, retry_chosen_after_failure};
use yunta_engine::session::{declares_edit_scope, fence_terms, run_wide_requirements, task_brief, told, Advice, RunWideCapability};
use yunta_engine::tasks::effective_scope;
use yunta_engine::workflow::{ArtifactKind, ArtifactSpec, ContextSpec, FindingSeverity, JoinPolicy, Mount, Node, NodeKind, PromptSource, Workflow};

fn event(seq: u64, node: Option<&str>, payload: EventPayload) -> StoredEvent {
    StoredEvent { seq, node_id: node.map(|n| n.to_string()), body: EventBody::Known(payload) }
}

fn strings(items: &[&str]) -> Vec<String> {
    items.iter().map(|s| s.to_string()).collect()
}

fn question(id: &str) -> Question {
    Question { id: id.to_string(), text: "why?".to_string(), answer_type: AnswerType::Text, values: vec![] }
}

fn finding(id: &str) -> Finding {
    Finding {
        id: id.to_string(),
        severity: FindingSeverity::Minor,
        title: "t".to_string(),
        location: "src/lib.rs".to_string(),
        detail: "d".to_string(),
    }
}

fn task(id: &str, criteria: &[&str], scope: &[&str]) -> TaskEntry {
    TaskEntry { id: id.to_string(), criteria: strings(criteria), scope: strings(scope), depends_on: vec![] }
}

#[test]
fn an_after_hook_fails_its_node_by_rule_or_by_policy() {
    assert_eq!(
        hook_failure(&HookRun::Violation { rule: "no network".to_string() }, HookPhase::After, "make", false),
        Some("no network".to_string())
    );
    assert_eq!(
        hook_failure(&HookRun::Ran { succeeded: false }, HookPhase::After, "make lint", true),
        Some("after hook `make lint` failed".to_string())
    );
    assert_eq!(hook_failure(&HookRun::Ran { succeeded: false }, HookPhase::After, "make lint", false), None);
    assert_eq!(hook_failure(&HookRun::Ran { succeeded: true }, HookPhase::After, "make lint", true), None);
}

#[test]
fn a_before_hook_stops_its_node_before_the_work() {
    assert_eq!(
        hook_failure(&HookRun::Ran { succeeded: false }, HookPhase::Before, "make deps", true),
        Some("before hook `make deps` failed".to_string())
    );
    assert_eq!(hook_failure(&HookRun::Ran { succeeded: false }, HookPhase::Before, "make deps", false), None);
}

#[test]
fn a_close_names_what_the_node_got_wrong() {
    assert_eq!(scope_failure(0), None);
    assert_eq!(scope_failure(2), Some("scope violated: 2 file(s) outside the declared globs".to_string()));
    assert_eq!(undeclared_failure(&vec![]), None);
    assert_eq!(
        undeclared_failure(&strings(&["notes.md", "extra.json"])),
        Some(
            "wrote 2 file(s) under `artifacts/` this node never declared: notes.md, extra.json \u{2014} declare them under `artifacts.produces`, or leave them to the node that does"
                .to_string()
        )
    );
    assert_eq!(questions_failure("plan", &vec![]), None);
    assert_eq!(
        questions_failure("plan", &strings(&["q1", "q2"])),
        Some("node `plan` asked 2 question(s) awaiting an answer: q1, q2".to_string())
    );
}

#[test]
fn every_question_the_artifacts_ask_is_pending_by_id() {
    let verified = vec![
        VerifiedArtifact { path: "a.md".to_string(), content_hash: "h1".to_string(), content: ArtifactContent::Opaque },
        VerifiedArtifact {
            path: "questions.yaml".to_string(),
            content_hash: "h2".to_string(),
            content: ArtifactContent::Questions(vec![question("q1"), question("q2")]),
        },
        VerifiedArtifact { path: "more.yaml".to_string(), content_hash: "h3".to_string(), content: ArtifactContent::Questions(vec![question("q3")]) },
    ];
    assert_eq!(pending_questions(&verified), strings(&["q1", "q2", "q3"]));
    assert_eq!(pending_questions(&vec![]), Vec::<String>::new());
}

#[test]
fn only_a_session_node_has_its_findings_files_derived() {
    let mut prompt = Node::new("review".to_string(), NodeKind::Prompt { prompt: PromptSource::Inline("look".to_string()) });
    prompt.artifacts = vec![
        ArtifactSpec::Plain("notes.md".to_string()),
        ArtifactSpec::Typed { name: "findings.yaml".to_string(), kind: ArtifactKind::Findings },
        ArtifactSpec::Typed { name: "tasks.yaml".to_string(), kind: ArtifactKind::TaskLedger },
    ];
    assert_eq!(findings_to_derive(&prompt), strings(&["findings.yaml"]));
    let mut bash = Node::new("lint".to_string(), NodeKind::Bash { run: "make".to_string() });
    bash.artifacts = vec![ArtifactSpec::Typed { name: "findings.yaml".to_string(), kind: ArtifactKind::Findings }];
    assert_eq!(findings_to_derive(&bash), Vec::<String>::new());
}

#[test]
fn a_reregistered_task_with_other_criteria_is_reset_to_pending() {
    let log = vec![
        event(1, Some("plan"), EventPayload::TaskRegistered { task: "t1".to_string(), criteria: strings(&["cargo test"]), scope: strings(&["src/**"]) }),
        event(2, Some("plan"), EventPayload::TaskRegistered { task: "t2".to_string(), criteria: strings(&["make"]), scope: strings(&["docs/**"]) }),
    ];
    let verified = vec![VerifiedArtifact {
        path: "tasks.yaml".to_string(),
        content_hash: "h".to_string(),
        content: ArtifactContent::Tasks(vec![
            task("t1", &["cargo test", "cargo clippy"], &["src/**"]),
            task("t2", &["make"], &["docs/**"]),
            task("t3", &["true"], &[]),
        ]),
    }];
    let events = record_artifacts(false, &log, &verified);
    assert_eq!(
        events,
        vec![
            PlannedEvent::ArtifactWritten { path: "tasks.yaml".to_string(), content_hash: "h".to_string() },
            PlannedEvent::TaskRegistered {
                task: "t1".to_string(),
                criteria: strings(&["cargo test", "cargo clippy"]),
                scope: strings(&["src/**"]),
                depends_on: vec![],
            },
            PlannedEvent::TaskReset { task: "t1".to_string() },
            PlannedEvent::TaskRegistered { task: "t2".to_string(), criteria: strings(&["make"]), scope: strings(&["docs/**"]), depends_on: vec![] },
            PlannedEvent::TaskRegistered { task: "t3".to_string(), criteria: strings(&["true"]), scope: vec![], depends_on: vec![] },
        ]
    );
}

#[test]
fn only_a_workflow_node_posts_the_findings_of_its_file() {
    let verified = vec![VerifiedArtifact {
        path: "findings.yaml".to_string(),
        content_hash: "h".to_string(),
        content: ArtifactContent::Findings(vec![finding("f1"), finding("f2")]),
    }];
    assert_eq!(
        record_artifacts(true, &vec![], &verified),
        vec![
            PlannedEvent::ArtifactWritten { path: "findings.yaml".to_string(), content_hash: "h".to_string() },
            PlannedEvent::FindingPosted { finding: finding("f1") },
            PlannedEvent::FindingPosted { finding: finding("f2") },
        ]
    );
    assert_eq!(
        record_artifacts(false, &vec![], &verified),
        vec![PlannedEvent::ArtifactWritten { path: "findings.yaml".to_string(), content_hash: "h".to_string() }]
    );
}

fn failed_loop_log() -> Vec<StoredEvent> {
    vec![
        event(1, Some("work"), EventPayload::NodeStarted),
        event(2, Some("work"), EventPayload::TaskRegistered { task: "t1".to_string(), criteria: vec![], scope: vec![] }),
        event(3, Some("work"), EventPayload::TaskRegistered { task: "t2".to_string(), criteria: vec![], scope: vec![] }),
        event(4, Some("work"), EventPayload::TaskStatusChanged { task: "t1".to_string(), status: TaskStatus::Blocked, caused_by: 1, commit: None }),
        event(5, Some("work"), EventPayload::NodeFailed { failure: Failure { message: "stuck".to_string() }, retryable: true, tokens: TokenUsage::default(), problems: vec![] }),
        event(6, Some("work"), EventPayload::GateWaiting { external_ref: None }),
        event(7, Some("work"), EventPayload::GateResolved { resolution: GateResolution::Chosen { option: "retry".to_string() } }),
    ]
}

#[test]
fn a_retry_reopens_the_blocked_tasks_once_per_decision() {
    let mut log = failed_loop_log();
    let state = yunta_engine::replay::derive(&log);
    assert_eq!(retry_chosen_after_failure(&state, &"work".to_string()), Some(7));
    let tasks = strings(&["t1", "t2"]);
    assert_eq!(after_retry(&state, &log, &"work".to_string(), &tasks), Some((7, strings(&["t1"]))));
    log.push(event(8, Some("work"), EventPayload::TaskStatusChanged { task: "t1".to_string(), status: TaskStatus::Pending, caused_by: 7, commit: None }));
    let state = yunta_engine::replay::derive(&log);
    assert_eq!(after_retry(&state, &log, &"work".to_string(), &tasks), None);
}

#[test]
fn an_abort_or_a_plain_resume_reopens_nothing() {
    let mut log = failed_loop_log();
    log.pop();
    log.push(event(7, Some("work"), EventPayload::GateResolved { resolution: GateResolution::Chosen { option: "abort".to_string() } }));
    let state = yunta_engine::replay::derive(&log);
    assert_eq!(retry_chosen_after_failure(&state, &"work".to_string()), None);
    assert_eq!(after_retry(&state, &log, &"work".to_string(), &strings(&["t1"])), None);
    let mut log = failed_loop_log();
    log.truncate(5);
    let state = yunta_engine::replay::derive(&log);
    assert_eq!(after_retry(&state, &log, &"work".to_string(), &strings(&["t1"])), None);
}

#[test]
fn a_parked_choice_is_acted_on_only_while_still_offered() {
    let log = vec![
        event(1, Some("gate"), EventPayload::GateWaiting { external_ref: None }),
        event(2, Some("gate"), EventPayload::GateResolved { resolution: GateResolution::Chosen { option: "ship".to_string() } }),
    ];
    let state = yunta_engine::replay::derive(&log);
    let option = |id: &str| GateOption { id: id.to_string(), label: id.to_string(), tradeoff: String::new() };
    let offered = Escalation::new("decide".to_string(), vec![], option("ship"), vec![option("hold")]).unwrap();
    assert_eq!(pre_seeded_resolution(&state, &"gate".to_string(), &offered), Some("ship".to_string()));
    let changed = Escalation::new("decide".to_string(), vec![], option("hold"), vec![]).unwrap();
    assert_eq!(pre_seeded_resolution(&state, &"gate".to_string(), &changed), None);
}

#[test]
fn a_task_session_is_told_its_task_and_its_mount_notices() {
    assert_eq!(task_brief("Do the work.", "t1", "Add logging"), "Do the work.\n\nYour task: `t1` \u{2014} Add logging.");
    assert_eq!(
        told("Prompt.".to_string(), &vec![Some(" Submit A.".to_string()), None, Some(" Task B.".to_string())]),
        "Prompt. Submit A. Task B."
    );
    assert_eq!(told("Prompt.".to_string(), &vec![]), "Prompt.");
}

#[test]
fn a_session_fence_holds_it_to_its_scope_and_says_how_to_ask_for_more() {
    let mut node = Node::new("impl".to_string(), NodeKind::Bash { run: "x".to_string() });
    assert!(!declares_edit_scope(&node));
    assert_eq!(run_wide_requirements(&node, None), vec![]);
    assert_eq!(run_wide_requirements(&node, Some(1000)), vec![RunWideCapability::UsageReporting]);
    node.scope = strings(&["src/**"]);
    assert!(declares_edit_scope(&node));
    assert_eq!(run_wide_requirements(&node, Some(5)), vec![RunWideCapability::Fence, RunWideCapability::UsageReporting]);
    let lp = Node::new("loop".to_string(), NodeKind::Loop { until: "done".to_string(), prompt: PromptSource::Inline("p".to_string()), concurrency: None });
    assert!(declares_edit_scope(&lp));

    let task_scope = strings(&["docs/**"]);
    assert_eq!(fence_terms(true, Some(&task_scope), &node), (Advice::RequestExpansion, Some(task_scope.clone())));
    assert_eq!(fence_terms(false, Some(&task_scope), &node), (Advice::ReportFinding, Some(task_scope.clone())));
    assert_eq!(fence_terms(true, None, &node), (Advice::ReportFinding, Some(strings(&["src/**"]))));
    assert_eq!(fence_terms(true, None, &lp), (Advice::ReportFinding, None));
}

#[test]
fn a_read_dependency_becomes_an_edge_once() {
    let mut reader = Node::new("reader".to_string(), NodeKind::Bash { run: "cat".to_string() });
    reader.depends_on = strings(&["plan"]);
    reader.context = vec![
        ContextSpec::Artifact { node: Some("plan".to_string()), name: "plan.md".to_string() },
        ContextSpec::Artifact { node: None, name: "own.md".to_string() },
        ContextSpec::Artifact { node: Some("brief".to_string()), name: "brief.md".to_string() },
        ContextSpec::Artifact { node: Some("brief".to_string()), name: "other.md".to_string() },
    ];
    let child = Node::new(
        "child".to_string(),
        NodeKind::Workflow { mounts: vec![Mount { node: "design".to_string(), name: "design.md".to_string() }] },
    );
    let mut inner = Node::new("inner".to_string(), NodeKind::Bash { run: "x".to_string() });
    inner.context = vec![ContextSpec::Artifact { node: Some("plan".to_string()), name: "plan.md".to_string() }];
    let group = Node::new("group".to_string(), NodeKind::Parallel { nodes: vec![inner], join: JoinPolicy::All });
    let mut wf = Workflow { name: "wf".to_string(), nodes: vec![reader, child, group], modes: None };
    expand_implicit_dependencies(&mut wf);
    assert_eq!(wf.nodes[0].depends_on, strings(&["plan", "brief"]));
    assert_eq!(wf.nodes[1].depends_on, strings(&["design"]));
    match &wf.nodes[2].kind {
        NodeKind::Parallel { nodes, .. } => assert_eq!(nodes[0].depends_on, strings(&["plan"])),
        _ => panic!("the group stays parallel"),
    }
    expand_implicit_dependencies(&mut wf);
    assert_eq!(wf.nodes[0].depends_on, strings(&["plan", "brief"]));
}

#[test]
fn a_task_may_touch_what_it_declared_and_what_was_granted() {
    let log = vec![
        event(1, Some("work"), EventPayload::ScopeExpansionGranted { task: "t1".to_string(), paths: strings(&["docs/**"]) }),
        event(2, Some("work"), EventPayload::ScopeExpansionGranted { task: "t2".to_string(), paths: strings(&["x/**"]) }),
    ];
    assert_eq!(effective_scope(&strings(&["src/**"]), &log, &"t1".to_string()), strings(&["src/**", "docs/**"]));
    assert_eq!(effective_scope(&vec![], &vec![], &"t1".to_string()), Vec::<String>::new());
}

#[test]
fn effective_findings_keep_every_posting_in_log_order() {
    let log = vec![
        event(1, Some("a"), EventPayload::FindingPosted { finding: finding("f1") }),
        event(2, Some("b"), EventPayload::FindingPosted { finding: finding("f1") }),
    ];
    let state = yunta_engine::replay::derive(&log);
    assert_eq!(state.effective_findings(), vec![finding("f1"), finding("f1")]);
    assert!(!state.derives_nothing());
    assert!(yunta_engine::replay::derive(&vec![]).derives_nothing());
}
