use yunta_engine::context::{
    assemble, assemble_segments, kind_name, memoizable, render_block, source_id_for, stability_class, StabilityClass,
};
use yunta_engine::workflow::ContextSpec;

#[test]
fn every_source_is_named_by_what_it_points_at() {
    let files = ContextSpec::Files { files: vec!["a.md".to_string(), "b.md".to_string()] };
    assert_eq!(source_id_for(&files), "files:a.md,b.md");
    assert_eq!(kind_name(&files), "files");
    assert_eq!(source_id_for(&ContextSpec::Artifact { node: Some("plan".to_string()), name: "plan.yaml".to_string() }), "artifact:plan/plan.yaml");
    assert_eq!(source_id_for(&ContextSpec::Artifact { node: None, name: "brief.md".to_string() }), "artifact:brief.md");
    assert_eq!(source_id_for(&ContextSpec::RunEvents { filter: None }), "run-events:all");
    assert_eq!(source_id_for(&ContextSpec::Knowledge { layers: vec![] }), "knowledge:all");
    assert_eq!(source_id_for(&ContextSpec::Mcp { server: "docs".to_string(), query: "q".to_string() }), "mcp:docs/q");
    assert_eq!(source_id_for(&ContextSpec::Ledger), "ledger");
}

#[test]
fn stable_sources_are_the_only_ones_served_twice() {
    assert_eq!(stability_class(&ContextSpec::Files { files: vec![] }), StabilityClass::Stable);
    assert_eq!(stability_class(&ContextSpec::Artifact { node: None, name: "x".to_string() }), StabilityClass::RunStable);
    assert_eq!(stability_class(&ContextSpec::Command { command: "date".to_string() }), StabilityClass::Volatile);
    assert!(memoizable(&ContextSpec::Knowledge { layers: vec![] }));
    assert!(!memoizable(&ContextSpec::NodeOutput { node: "lint".to_string() }));
}

#[test]
fn a_block_is_inline_up_to_the_threshold_and_referenced_beyond() {
    assert_eq!(render_block("files:a.md", "files", b"hello", "/ctx/1", 5), "--- context: files:a.md (files) ---\nhello");
    assert_eq!(
        render_block("files:a.md", "files", b"hello!", "/ctx/1", 5),
        "--- context: files:a.md (files) ---\n[6 bytes, referenced — see /ctx/1]\n"
    );
}

#[test]
fn context_is_assembled_stable_first_whatever_the_declaration_order() {
    let blocks = vec![
        (StabilityClass::Volatile, "v1".to_string()),
        (StabilityClass::Stable, "s1".to_string()),
        (StabilityClass::Volatile, "v2".to_string()),
        (StabilityClass::Stable, "s2".to_string()),
    ];
    let segments = assemble_segments(&blocks);
    assert_eq!(
        segments,
        vec![("stable".to_string(), "s1\ns2".to_string()), ("volatile".to_string(), "v1\nv2".to_string())]
    );
    assert_eq!(assemble(&segments), "s1\ns2\nv1\nv2");
}
