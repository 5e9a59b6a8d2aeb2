use yunta_engine::modes::{check_mode, dependencies_in_mode, dependencies_of, mode_included_nodes, UnknownMode};
use yunta_engine::workflow::{ModeEntry, ModeInclude, Node, NodeKind, Workflow};

fn s(text: &str) -> String {
    text.to_string()
}

fn ids(list: &[&str]) -> Vec<String> {
    list.iter().map(|id| id.to_string()).collect()
}

fn bash(id: &str, depends_on: &[&str]) -> Node {
    let mut node = Node::new(s(id), NodeKind::Bash { run: s("true") });
    node.depends_on = ids(depends_on);
    node
}

fn workflow() -> Workflow {
    Workflow {
        name: s("chain"),
        nodes: vec![
            bash("start", &[]),
            bash("review", &["start"]),
            bash("extra", &["review", "start"]),
            bash("ship", &["extra"]),
            bash("audit", &["review"]),
        ],
        modes: Some(vec![
            ModeEntry { name: s("quick"), selects: ModeInclude::Nodes(ids(&["start", "ship", "audit"])) },
            ModeEntry { name: s("full"), selects: ModeInclude::All },
        ]),
    }
}

#[test]
fn an_excluded_dependency_is_replaced_by_its_own_included_dependencies_transitively() {
    let workflow = workflow();
    let included = mode_included_nodes(&workflow, &s("quick"));
    let deps = dependencies_in_mode(&workflow, included.as_ref());
    // `ship` -> `extra` (excluded) -> `review` (excluded) -> `start`, plus
    // `extra`'s own direct `start`, which collapses into one entry.
    assert_eq!(dependencies_of(&deps, &s("ship")), Some(&ids(&["start"])));
    assert_eq!(dependencies_of(&deps, &s("audit")), Some(&ids(&["start"])));
    assert_eq!(dependencies_of(&deps, &s("start")), Some(&ids(&[])));
    assert!(
        dependencies_of(&deps, &s("extra")).is_none(),
        "an excluded node has no entry of its own"
    );
}

#[test]
fn without_a_narrowing_mode_every_declared_list_is_returned_verbatim() {
    let workflow = workflow();
    let deps = dependencies_in_mode(&workflow, None);
    assert_eq!(dependencies_of(&deps, &s("extra")), Some(&ids(&["review", "start"])));
    assert_eq!(dependencies_of(&deps, &s("ship")), Some(&ids(&["extra"])));
    assert_eq!(deps.len(), workflow.nodes.len());
}

#[test]
fn a_mode_that_includes_all_does_not_narrow() {
    let workflow = workflow();
    assert_eq!(mode_included_nodes(&workflow, &s("full")), None);
    assert_eq!(mode_included_nodes(&workflow, &s("missing")), None);
    assert_eq!(mode_included_nodes(&workflow, &s("quick")), Some(ids(&["start", "ship", "audit"])));
}

#[test]
fn a_cycle_through_excluded_nodes_ends_where_it_closes() {
    let workflow = Workflow {
        name: s("loop"),
        nodes: vec![bash("a", &["b"]), bash("b", &["c"]), bash("c", &["b", "d"]), bash("d", &[])],
        modes: None,
    };
    let selected = ids(&["a", "d"]);
    let deps = dependencies_in_mode(&workflow, Some(&selected));
    assert_eq!(dependencies_of(&deps, &s("a")), Some(&ids(&["d"])));
}

#[test]
fn a_run_is_born_only_in_a_declared_mode_or_the_default() {
    let wf = workflow();
    assert_eq!(check_mode(&wf, &s("quick")), Ok(()));
    assert_eq!(check_mode(&wf, &s("default")), Ok(()));
    let refused = check_mode(&wf, &s("fast")).unwrap_err();
    assert_eq!(refused, UnknownMode { workflow: s("chain"), mode: s("fast"), declared: s("quick, full") });
    assert_eq!(refused.message(), "workflow `chain` declares no mode `fast` \u{2014} declared modes: quick, full");
    let plain = Workflow { name: s("plain"), nodes: vec![], modes: None };
    assert_eq!(check_mode(&plain, &s("default")), Ok(()));
    assert_eq!(
        check_mode(&plain, &s("quick")).unwrap_err().declared,
        "(none \u{2014} this workflow declares no modes:)"
    );
}
