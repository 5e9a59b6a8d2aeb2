use yunta_engine::events::{EventBody, EventPayload, StoredEvent};
use yunta_engine::ledger::{Failure, TokenUsage};
use yunta_engine::progress::render_progress;
use yunta_engine::workflow::{JoinPolicy, Node, NodeKind};

fn event(seq: u64, node: &str, payload: EventPayload) -> StoredEvent {
    StoredEvent { seq, node_id: Some(node.to_string()), body: EventBody::Known(payload) }
}

fn bash(id: &str, description: Option<&str>) -> Node {
    let mut node = Node::new(id.to_string(), NodeKind::Bash { run: "true".to_string() });
    node.description = description.map(|d| d.to_string());
    node
}

#[test]
fn a_fresh_run_has_everything_ahead() {
    let nodes = vec![bash("build", Some("Builds it")), bash("test", None)];
    assert_eq!(
        render_progress(&nodes, &vec![]),
        "# Progress\n\n## Finished\n\n_none yet_\n\n## Failed\n\n_none_\n\n## Next\n\n- **build** — Builds it\n- **test** — test\n"
    );
}

#[test]
fn finished_failed_and_running_nodes_each_have_their_place() {
    let nodes = vec![bash("build", Some("Builds it")), bash("lint", None), bash("test", None), bash("ship", None)];
    let events = vec![
        event(1, "build", EventPayload::NodeStarted),
        event(2, "build", EventPayload::ArtifactRecorded { path: "artifacts/bin".to_string() }),
        event(3, "build", EventPayload::NodeFinished { outcome: "built".to_string(), tokens: TokenUsage::default() }),
        event(4, "lint", EventPayload::NodeStarted),
        event(5, "lint", EventPayload::NodeFailed { failure: Failure { message: "two\nproblems".to_string() }, retryable: true, tokens: TokenUsage::default(), problems: vec![] }),
        event(6, "test", EventPayload::NodeStarted),
    ];
    assert_eq!(
        render_progress(&nodes, &events),
        "# Progress\n\n## Finished\n\n- **build** — Builds it\n  outcome: built\n  artifact: artifacts/bin\n\n## Failed\n\n- **lint** — \n\n  ```\n  two\n  problems\n  ```\n\n## Next\n\n- **test** — test (running)\n- **ship** — ship\n"
    );
}

#[test]
fn nodes_inside_nested_parallel_groups_are_listed_after_their_group() {
    let inner = Node::new(
        "inner".to_string(),
        NodeKind::Parallel { nodes: vec![bash("deep", None)], join: JoinPolicy::All },
    );
    let outer = Node::new(
        "outer".to_string(),
        NodeKind::Parallel { nodes: vec![bash("left", None), inner], join: JoinPolicy::Any },
    );
    let nodes = vec![outer, bash("after", None)];
    assert_eq!(
        render_progress(&nodes, &vec![]),
        "# Progress\n\n## Finished\n\n_none yet_\n\n## Failed\n\n_none_\n\n## Next\n\n- **outer** — outer\n- **left** — left\n- **inner** — inner\n- **deep** — deep\n- **after** — after\n"
    );
}
