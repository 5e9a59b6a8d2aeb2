use yunta_engine::runner::{
    agent_refusal, chosen_agent, first_typed_artifact, kind_name, run_tools_allowed, runner_role, RunToolsSetupError,
};
use yunta_engine::workflow::{ArtifactKind, ArtifactSpec, Node, NodeKind};

fn node(runner: Option<&str>, agent: Option<&str>) -> Node {
    let mut node = Node::new("review".to_string(), NodeKind::Bash { run: "x".to_string() });
    node.runner = runner.map(|r| r.to_string());
    node.agent = agent.map(|a| a.to_string());
    node
}

#[test]
fn a_node_runs_its_own_runner_else_the_default_else_fails() {
    let fallback = "worker".to_string();
    assert_eq!(runner_role(&node(Some("critic"), None), Some(&fallback)), Ok("critic".to_string()));
    assert_eq!(runner_role(&node(None, None), Some(&fallback)), Ok("worker".to_string()));
    assert_eq!(
        runner_role(&node(None, None), None),
        Err("node `review` has no `runner:` and the config declares no `defaults.runner` \u{2014} declare one".to_string())
    );
}

#[test]
fn a_nodes_own_agent_wins_and_needs_an_adapter_that_runs_agents() {
    assert_eq!(chosen_agent(&node(None, Some("strict")), Some("lenient".to_string())), Some("strict".to_string()));
    assert_eq!(chosen_agent(&node(None, None), Some("lenient".to_string())), Some("lenient".to_string()));
    assert_eq!(chosen_agent(&node(None, None), None), None);
    let agent = "strict".to_string();
    assert_eq!(agent_refusal("review", Some(&agent), "alpha", true), None);
    assert_eq!(agent_refusal("review", None, "alpha", false), None);
    assert_eq!(
        agent_refusal("review", Some(&agent), "beta", false),
        Some("node `review` requests agent `strict` but adapter `beta` does not declare `custom_agents` \u{2014} pick a candidate on an adapter that does, or drop the agent".to_string())
    );
}

#[test]
fn a_session_without_the_run_tools_it_needs_fails_with_its_reason() {
    assert_eq!(kind_name(ArtifactKind::TaskLedger), "task-ledger");
    assert_eq!(
        RunToolsSetupError::NoRunToolsCapability { node: "n".to_string(), adapter: "a".to_string() }.message(),
        "node `n` is in a `coordination: blackboard` group but adapter `a` declares no `run_tools` capability \u{2014} the blackboard cannot be mounted; pick a runner on an adapter that can be a client of the per-run MCP endpoint"
    );
    assert_eq!(
        RunToolsSetupError::ListenerFailed { node: "n".to_string(), detail: "port in use".to_string() }.message(),
        "node `n` is in a `coordination: blackboard` group but its per-run MCP listener failed to start: port in use"
    );
    assert_eq!(
        RunToolsSetupError::TypedArtifactNeedsRunTools { node: "n".to_string(), kind: ArtifactKind::Findings, adapter: "a".to_string() }.message(),
        "node `n` declares a `findings` artifact, which a session hands over through the run tools, and adapter `a` declares no `run_tools` capability \u{2014} the document has no way in; pick a runner on an adapter that can be a client of the per-run MCP endpoint"
    );
    assert_eq!(
        RunToolsSetupError::TypedArtifactListenerFailed { node: "n".to_string(), kind: ArtifactKind::Questions, detail: "x".to_string() }.message(),
        "node `n` declares a `questions` artifact, which a session hands over through the run tools, and its per-run MCP listener failed to start: x"
    );
}

#[test]
fn the_first_interpreted_document_is_the_one_named() {
    let artifacts = vec![
        ArtifactSpec::Plain("notes.md".to_string()),
        ArtifactSpec::Typed { name: "findings.yaml".to_string(), kind: ArtifactKind::Findings },
        ArtifactSpec::Typed { name: "tasks.yaml".to_string(), kind: ArtifactKind::TaskLedger },
    ];
    assert_eq!(first_typed_artifact(&artifacts), Some(ArtifactKind::Findings));
    assert_eq!(first_typed_artifact(&vec![ArtifactSpec::Plain("notes.md".to_string())]), None);
}

#[test]
fn run_tools_are_refused_only_where_the_node_needs_them() {
    let node = "plan".to_string();
    let adapter = "plain-cli".to_string();
    let typed = vec![ArtifactSpec::Typed { name: "tasks.yaml".to_string(), kind: ArtifactKind::TaskLedger }];
    let plain = vec![ArtifactSpec::Plain("notes.md".to_string())];
    assert_eq!(run_tools_allowed(&node, &adapter, true, true, &typed), Ok(()));
    assert_eq!(
        run_tools_allowed(&node, &adapter, false, true, &typed),
        Err(RunToolsSetupError::NoRunToolsCapability { node: "plan".to_string(), adapter: "plain-cli".to_string() })
    );
    assert_eq!(
        run_tools_allowed(&node, &adapter, false, false, &typed),
        Err(RunToolsSetupError::TypedArtifactNeedsRunTools {
            node: "plan".to_string(),
            kind: ArtifactKind::TaskLedger,
            adapter: "plain-cli".to_string(),
        })
    );
    assert_eq!(run_tools_allowed(&node, &adapter, false, false, &plain), Ok(()));
}
