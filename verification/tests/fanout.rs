use yunta_engine::fanout::{dup_node, expand_runner_fanout, rewire};
use yunta_engine::manifest::expand_workflow;
use yunta_engine::workflow::{ContextSpec, ModeEntry, ModeInclude, Node, NodeKind, PromptSource, Workflow};

fn strings(items: &[&str]) -> Vec<String> {
    items.iter().map(|s| s.to_string()).collect()
}

fn prompt(id: &str, deps: &[&str], runners: &[&str]) -> Node {
    let mut node = Node::new(id.to_string(), NodeKind::Prompt { prompt: PromptSource::Inline("look".to_string()) });
    node.depends_on = strings(deps);
    node.runners = strings(runners);
    node.scope = strings(&["src/**"]);
    node
}

fn review_workflow() -> Workflow {
    Workflow {
        name: "wf".to_string(),
        nodes: vec![prompt("plan", &[], &[]), prompt("review", &["plan"], &["alpha", "beta"]), prompt("fix", &["review", "plan"], &[])],
        modes: Some(vec![
            ModeEntry { name: "quick".to_string(), selects: ModeInclude::Nodes(strings(&["plan", "review"])) },
            ModeEntry { name: "full".to_string(), selects: ModeInclude::All },
        ]),
    }
}

#[test]
fn a_node_with_runners_becomes_one_node_per_role_and_references_follow() {
    let mut wf = review_workflow();
    expand_runner_fanout(&mut wf);
    let ids: Vec<&str> = wf.nodes.iter().map(|n| n.id.as_str()).collect();
    assert_eq!(ids, vec!["plan", "review@alpha", "review@beta", "fix"]);
    assert_eq!(wf.nodes[1].runner, Some("alpha".to_string()));
    assert_eq!(wf.nodes[2].runner, Some("beta".to_string()));
    assert!(wf.nodes[1].runners.is_empty() && wf.nodes[2].runners.is_empty());
    assert_eq!(wf.nodes[1].depends_on, strings(&["plan"]));
    assert_eq!(wf.nodes[2].scope, strings(&["src/**"]));
    assert_eq!(wf.nodes[3].depends_on, strings(&["review@alpha", "review@beta", "plan"]));
    let modes = wf.modes.as_ref().unwrap();
    assert_eq!(modes[0].selects, ModeInclude::Nodes(strings(&["plan", "review@alpha", "review@beta"])));
    assert_eq!(modes[1].selects, ModeInclude::All);
}

#[test]
fn without_runners_nothing_is_rewired() {
    let nodes = vec![prompt("a", &[], &[]), prompt("b", &["a"], &[])];
    assert_eq!(rewire(&nodes, &strings(&["a", "b", "zzz"])), strings(&["a", "b", "zzz"]));
    let copy = dup_node(&nodes[1]);
    assert_eq!(copy, nodes[1]);
}

#[test]
fn a_frozen_workflow_fans_out_before_folding_its_implied_edges() {
    let mut wf = review_workflow();
    wf.nodes[2].context = vec![ContextSpec::Artifact { node: Some("review".to_string()), name: "findings.yaml".to_string() }];
    wf.nodes[2].depends_on = vec![];
    expand_workflow(&mut wf);
    assert_eq!(wf.nodes[3].id, "fix");
    assert_eq!(wf.nodes[3].depends_on, strings(&["review"]));
}
