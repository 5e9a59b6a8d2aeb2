use yunta_engine::events::{EventBody, EventPayload, StoredEvent};
use yunta_engine::ledger::{Failure, TokenUsage};
use yunta_engine::parallel::{
    join_all, plan_parallel, race_end, race_start, race_step, uncertain_failure, won_by, ChildEnd, GroupEnd, RaceStep,
};
use yunta_engine::workflow::{Node, NodeKind, OnInterrupt};

fn event(seq: u64, node: &str, payload: EventPayload) -> StoredEvent {
    StoredEvent { seq, node_id: Some(node.to_string()), body: EventBody::Known(payload) }
}

fn child(id: &str, on_interrupt: Option<OnInterrupt>) -> Node {
    let mut node = Node::new(id.to_string(), NodeKind::Bash { run: "x".to_string() });
    node.on_interrupt = on_interrupt;
    node
}

fn ends(items: Vec<(&str, ChildEnd)>) -> Vec<(String, ChildEnd)> {
    items.into_iter().map(|(id, end)| (id.to_string(), end)).collect()
}

#[test]
fn a_resumed_group_reruns_its_orphans_and_never_a_terminal_child() {
    let children = vec![
        child("fresh", None),
        child("orphan", None),
        child("unsafe", Some(OnInterrupt::FailIfUncertain)),
        child("done", None),
        child("broke", None),
    ];
    let state = yunta_engine::replay::derive(&vec![
        event(1, "orphan", EventPayload::NodeStarted),
        event(2, "unsafe", EventPayload::NodeStarted),
        event(3, "done", EventPayload::NodeStarted),
        event(4, "done", EventPayload::NodeFinished { outcome: "ok".to_string(), tokens: TokenUsage::default() }),
        event(5, "broke", EventPayload::NodeStarted),
        event(6, "broke", EventPayload::NodeFailed { failure: Failure { message: "x".to_string() }, retryable: true, tokens: TokenUsage::default(), problems: vec![] }),
    ]);
    let plan = plan_parallel(&children, &state, OnInterrupt::RestartNode);
    assert_eq!(plan.uncertain, vec!["unsafe".to_string()]);
    assert_eq!(plan.failed, vec!["unsafe".to_string(), "broke".to_string()]);
    assert_eq!(plan.to_run, vec![("fresh".to_string(), 1), ("orphan".to_string(), 2)]);
    assert_eq!(plan.already_won, Some("done".to_string()));
    assert_eq!(
        uncertain_failure("unsafe"),
        "`unsafe` was running with no terminal event when the engine last stopped \u{2014} `on_interrupt: fail_if_uncertain` refuses to guess whether it finished; verify manually before resuming"
    );
}

#[test]
fn join_all_closes_only_when_every_child_finished() {
    let group = "group".to_string();
    assert_eq!(
        join_all(&group, 3, &ends(vec![("a", ChildEnd::Finished), ("b", ChildEnd::Finished)])),
        GroupEnd::Close { outcome: "3 child(ren) finished".to_string() }
    );
    assert_eq!(
        join_all(&group, 2, &ends(vec![("a", ChildEnd::Finished), ("b", ChildEnd::Failed), ("c", ChildEnd::Failed)])),
        GroupEnd::Fail { failure: "child `b` failed under join: all".to_string() }
    );
    assert_eq!(
        join_all(&group, 2, &ends(vec![
            ("a", ChildEnd::Failed),
            ("b", ChildEnd::ChildPaused { node: "b".to_string(), reason: "gate".to_string() }),
        ])),
        GroupEnd::ChildPaused { node: "b".to_string(), reason: "gate".to_string() }
    );
    assert_eq!(
        join_all(&group, 2, &ends(vec![("a", ChildEnd::Failed), ("b", ChildEnd::Interrupted)])),
        GroupEnd::Interrupted
    );
    assert_eq!(
        join_all(&group, 2, &ends(vec![("a", ChildEnd::Interrupted), ("b", ChildEnd::Asked)])),
        GroupEnd::Broken {
            diagnostic: "child `b` of parallel group `group` handed questions over \u{2014} a node inside a group is never asked; `check` refuses this workflow".to_string()
        }
    );
}

#[test]
fn join_any_is_won_by_the_first_child_to_finish() {
    let group = "group".to_string();
    let race = race_start(1);
    let race = match race_step(&group, race, &"a".to_string(), &ChildEnd::Failed) {
        RaceStep::Continue(race) => race,
        other => panic!("the race goes on, not {other:?}"),
    };
    assert_eq!(race.failures, 2);
    let race = match race_step(&group, race, &"b".to_string(), &ChildEnd::ChildPaused { node: "b".to_string(), reason: "r".to_string() }) {
        RaceStep::Continue(race) => race,
        other => panic!("the race goes on, not {other:?}"),
    };
    assert_eq!(
        race_step(&group, race.clone(), &"c".to_string(), &ChildEnd::Finished),
        RaceStep::Decided(GroupEnd::Close { outcome: "`c` succeeded first".to_string() })
    );
    assert_eq!(race_step(&group, race.clone(), &"c".to_string(), &ChildEnd::Interrupted), RaceStep::Decided(GroupEnd::Interrupted));
    assert_eq!(race_end(race), GroupEnd::ChildPaused { node: "b".to_string(), reason: "r".to_string() });
    assert_eq!(
        race_end(race_start(3)),
        GroupEnd::Fail { failure: "join: any \u{2014} no child succeeded (3 failed)".to_string() }
    );
    assert_eq!(won_by(&"d".to_string()), GroupEnd::Close { outcome: "`d` succeeded first".to_string() });
}
