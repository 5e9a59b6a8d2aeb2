use yunta_engine::events::{EventBody, EventPayload, StoredEvent, TaskStatus};
use yunta_engine::replay::RunState;
use yunta_engine::tasks::{
    attempt_number, conflict_list, dispatch_status, granted_count, granted_paths_for, loop_concurrency, loop_step, select_batch, settle_task,
    LoopStep, Task, TaskEnd, TaskPlan, TaskSettlement,
};
use yunta_engine::workflow::{NodeKind, PromptSource};

fn event(seq: u64, payload: EventPayload) -> StoredEvent {
    StoredEvent { seq, node_id: Some("loop".to_string()), body: EventBody::Known(payload) }
}

fn task(id: &str, deps: &[&str]) -> Task {
    Task { id: id.to_string(), depends_on: deps.iter().map(|d| d.to_string()).collect() }
}

fn plan() -> TaskPlan {
    TaskPlan { tasks: vec![task("a", &[]), task("b", &["a"]), task("c", &[]), task("d", &[])] }
}

fn state(statuses: &[(&str, TaskStatus)]) -> RunState {
    let mut events = Vec::new();
    let mut seq = 0;
    for (id, status) in statuses {
        seq += 1;
        events.push(event(seq, EventPayload::TaskRegistered { task: id.to_string(), criteria: vec![], scope: vec![] }));
        if *status != TaskStatus::Pending {
            seq += 1;
            events.push(event(seq, EventPayload::TaskStatusChanged { task: id.to_string(), status: *status, caused_by: 0, commit: None }));
        }
    }
    yunta_engine::replay::derive(&events)
}

#[test]
fn a_batch_takes_ready_tasks_in_declaration_order_up_to_the_concurrency() {
    let s = state(&[("a", TaskStatus::Pending), ("b", TaskStatus::Pending), ("c", TaskStatus::Pending), ("d", TaskStatus::Pending)]);
    assert_eq!(select_batch(&plan(), &s, 2), vec![0, 2]);
    assert_eq!(select_batch(&plan(), &s, 8), vec![0, 2, 3]);
    let s = state(&[("a", TaskStatus::Done), ("b", TaskStatus::Pending), ("c", TaskStatus::Running), ("d", TaskStatus::Blocked)]);
    assert_eq!(select_batch(&plan(), &s, 8), vec![1, 2]);
}

#[test]
fn a_loop_closes_when_everything_is_done_and_fails_when_stuck() {
    let done = state(&[("a", TaskStatus::Done), ("b", TaskStatus::Done), ("c", TaskStatus::Done), ("d", TaskStatus::Done)]);
    assert_eq!(loop_step(&plan(), &done, 2, 1, 10, false, &vec![]), LoopStep::Close { outcome: "4 task(s) done".to_string() });
    let stuck = state(&[("a", TaskStatus::Blocked), ("b", TaskStatus::Pending), ("c", TaskStatus::Done), ("d", TaskStatus::Done)]);
    assert_eq!(
        loop_step(&plan(), &stuck, 2, 1, 10, false, &vec!["a: needs a person".to_string()]),
        LoopStep::Fail {
            diagnostic: "no task is ready and not all are done — blocked or failed tasks need a decision; a: needs a person".to_string()
        }
    );
}

#[test]
fn a_loop_past_its_cap_asks_unless_the_cap_was_lifted() {
    let fresh = state(&[("a", TaskStatus::Pending), ("b", TaskStatus::Pending), ("c", TaskStatus::Pending), ("d", TaskStatus::Pending)]);
    assert_eq!(loop_step(&plan(), &fresh, 1, 4, 3, false, &vec![]), LoopStep::AskOverrun);
    assert_eq!(loop_step(&plan(), &fresh, 1, 4, 3, true, &vec![]), LoopStep::Dispatch { batch: vec![0] });
    assert_eq!(loop_step(&plan(), &fresh, 1, 3, 3, false, &vec![]), LoopStep::Dispatch { batch: vec![0] });
}

#[test]
fn attempts_and_grants_are_read_off_the_log() {
    let events = vec![
        event(1, EventPayload::TaskRegistered { task: "a".to_string(), criteria: vec![], scope: vec![] }),
        event(2, EventPayload::TaskStatusChanged { task: "a".to_string(), status: TaskStatus::Running, caused_by: 0, commit: None }),
        event(3, EventPayload::TaskStatusChanged { task: "a".to_string(), status: TaskStatus::Pending, caused_by: 0, commit: None }),
        event(4, EventPayload::TaskStatusChanged { task: "a".to_string(), status: TaskStatus::Running, caused_by: 0, commit: None }),
        event(5, EventPayload::ScopeExpansionGranted { task: "a".to_string(), paths: vec!["src/x/".to_string()] }),
        event(6, EventPayload::ScopeExpansionGranted { task: "b".to_string(), paths: vec!["docs/".to_string()] }),
    ];
    let s = yunta_engine::replay::derive(&events);
    assert_eq!(attempt_number(&s, &"a".to_string()), 3);
    assert_eq!(attempt_number(&s, &"z".to_string()), 1);
    assert_eq!(granted_count(&events), 2);
    assert_eq!(granted_paths_for(&events, &"a".to_string()), vec!["src/x/".to_string()]);
    assert_eq!(conflict_list(&vec!["a.rs".to_string(), "b.rs".to_string()]), "a.rs, b.rs");
}

#[test]
fn a_conflicting_rebase_is_a_failed_criterion_and_only_green_work_lands() {
    let conflict = yunta_engine::tasks::rebase_conflict(&vec!["src/a.rs".to_string(), "src/b.rs".to_string()]);
    assert_eq!(conflict.cmd, "git rebase: src/a.rs, src/b.rs");
    assert_eq!(conflict.exit_code, 1);
    let green = vec![yunta_engine::events::CriterionResult { cmd: "cargo test".to_string(), exit_code: 0, reused: false }];
    assert!(yunta_engine::tasks::lands(&green, &vec![]));
    assert!(!yunta_engine::tasks::lands(&green, &vec!["docs/x.md".to_string()]));
    assert!(!yunta_engine::tasks::lands(&vec![conflict], &vec![]));
}

fn status(task: &str, status: TaskStatus, caused_by: u64, commit: Option<&str>) -> EventPayload {
    EventPayload::TaskStatusChanged { task: task.to_string(), status, caused_by, commit: commit.map(|c| c.to_string()) }
}

#[test]
fn a_settled_task_moves_to_its_new_status() {
    let t = "t1".to_string();
    assert_eq!(settle_task(&t, TaskEnd::Interrupted, 9, true, Some(2)), TaskSettlement::Cancelled);
    assert_eq!(
        settle_task(&t, TaskEnd::Integrated { commit: "abc123".to_string() }, 9, false, None),
        TaskSettlement::Settled { status: status("t1", TaskStatus::Done, 9, Some("abc123")), blocked: None, escalation: None }
    );
    assert_eq!(
        settle_task(&t, TaskEnd::Rejected, 9, false, None),
        TaskSettlement::Settled { status: status("t1", TaskStatus::Pending, 9, None), blocked: None, escalation: None }
    );
    assert_eq!(
        settle_task(&t, TaskEnd::Blocked { cause: "retries spent".to_string() }, 4, false, None),
        TaskSettlement::Settled {
            status: status("t1", TaskStatus::Blocked, 4, None),
            blocked: Some(("t1".to_string(), "retries spent".to_string())),
            escalation: None,
        }
    );
}

#[test]
fn a_task_awaiting_a_person_is_not_cited_as_blocked() {
    let t = "t2".to_string();
    assert_eq!(
        settle_task(&t, TaskEnd::Blocked { cause: "needs more paths".to_string() }, 7, true, Some(3)),
        TaskSettlement::Settled { status: status("t2", TaskStatus::Blocked, 7, None), blocked: None, escalation: Some((3, true)) }
    );
    assert_eq!(
        settle_task(&t, TaskEnd::Rejected, 7, true, Some(1)),
        TaskSettlement::Settled { status: status("t2", TaskStatus::Pending, 7, None), blocked: None, escalation: Some((1, false)) }
    );
    assert_eq!(
        settle_task(&t, TaskEnd::Rejected, 7, false, Some(1)),
        TaskSettlement::Settled { status: status("t2", TaskStatus::Pending, 7, None), blocked: None, escalation: None }
    );
}

#[test]
fn a_loop_works_on_at_least_one_task_at_a_time() {
    let looping = |concurrency: Option<u32>| NodeKind::Loop {
        until: "done".to_string(),
        prompt: PromptSource::Inline("work".to_string()),
        concurrency,
    };
    assert_eq!(loop_concurrency(&looping(None)), 1);
    assert_eq!(loop_concurrency(&looping(Some(0))), 1);
    assert_eq!(loop_concurrency(&looping(Some(4))), 4);
    assert_eq!(loop_concurrency(&NodeKind::Bash { run: "true".to_string() }), 1);
}

#[test]
fn a_dispatch_runs_the_task_its_registration_caused() {
    let events = vec![
        event(3, EventPayload::TaskRegistered { task: "a".to_string(), criteria: vec![], scope: vec![] }),
        event(4, EventPayload::TaskRegistered { task: "b".to_string(), criteria: vec![], scope: vec![] }),
    ];
    assert_eq!(dispatch_status(&events, &"b".to_string()), Ok(status("b", TaskStatus::Running, 4, None)));
    assert_eq!(
        dispatch_status(&events, &"c".to_string()),
        Err("task `c` is dispatched but the log has no task_registered for it".to_string())
    );
}
