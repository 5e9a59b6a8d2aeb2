use yunta_engine::diagnostic::{Diagnostic, Subject};
use yunta_engine::pack_audit::{audit_node, describe_context, effective_hooks, prompt_location, PromptLocation, PromptReadError};
use yunta_engine::pack_requires::{check_pack_requires, ConfigLayer, PackManifest, PackRequires, RunnerRole};
use yunta_engine::questions::{register, AnswerType, Question, QuestionsFile};
use yunta_engine::workflow::{ContextSpec, HookStep, Hooks, Node, NodeKind, PromptSource};

fn question(id: &str, text: &str, answer_type: AnswerType, values: &[&str]) -> Question {
    Question {
        id: id.to_string(),
        text: text.to_string(),
        answer_type,
        values: values.iter().map(|v| v.to_string()).collect(),
    }
}

#[test]
fn every_broken_rule_of_a_questions_document_is_reported() {
    let file = QuestionsFile {
        questions: vec![
            question("q1", "Which database?", AnswerType::Choice, &["pg", "sqlite"]),
            question("q1", "   ", AnswerType::Choice, &[]),
            question("q2", "Ready?", AnswerType::YesNo, &[]),
        ],
    };
    let errors = register(&file);
    let codes: Vec<&str> = errors.iter().map(|e| e.code.as_str()).collect();
    assert_eq!(codes, vec!["duplicate-id", "empty-text", "missing-values"]);
    assert_eq!(errors[0].subject, Subject::Question { id: Some("q1".to_string()), index: 1 });
    assert_eq!(
        errors[0].describe(),
        "question `q1`: a second question already carries this id; every id is declared once"
    );
    assert!(register(&QuestionsFile { questions: vec![question("q", "Why?", AnswerType::Text, &[])] }).is_empty());
}

#[test]
fn a_criterion_is_named_by_its_position_from_one() {
    let diagnostic = Diagnostic {
        subject: Subject::Criterion { task: "t1".to_string(), index: 2 },
        code: "x".to_string(),
        message: "wrong".to_string(),
    };
    assert_eq!(diagnostic.describe(), "task `t1`, criterion 3: wrong");
}

fn steps(runs: &[&str]) -> Vec<HookStep> {
    runs.iter().map(|r| HookStep { run: r.to_string() }).collect()
}

#[test]
fn a_node_declared_phase_replaces_the_default_and_an_empty_one_inherits_it() {
    let defaults = Hooks { before: steps(&["fmt"]), after: steps(&["lint"]) };
    let mut node = Node::new("n".to_string(), NodeKind::Bash { run: "make".to_string() });
    node.hooks = Some(Hooks { before: steps(&["setup"]), after: vec![] });
    let (before, after) = effective_hooks(&node, Some(&defaults));
    assert_eq!(before, vec!["setup".to_string()]);
    assert_eq!(after, vec!["lint".to_string()]);
    let (before, after) = effective_hooks(&node, None);
    assert_eq!((before, after), (vec!["setup".to_string()], vec![]));
}

#[test]
fn the_audit_inventories_a_node_without_judging_it() {
    let mut node = Node::new(
        "ask".to_string(),
        NodeKind::Prompt { prompt: PromptSource::File("prompts/ask.md".to_string()) },
    );
    node.context = vec![
        ContextSpec::Mcp { server: "docs".to_string(), query: "q".to_string() },
        ContextSpec::Artifact { node: None, name: "brief.md".to_string() },
    ];
    let read_error = PromptReadError { path: "/pack/wf/prompts/ask.md".to_string(), detail: "not found".to_string() };
    let audit = audit_node(&node, None, Some(Err(read_error.clone())));
    assert_eq!(audit.kind, "prompt");
    assert_eq!(audit.prompt, Some(Err(read_error)));
    assert_eq!(audit.context, vec!["mcp: server=docs query=q".to_string(), "artifact: name=brief.md (mounted, no producer)".to_string()]);
    assert_eq!(audit.mcp_servers, vec!["docs".to_string()]);
    assert_eq!(
        prompt_location(&PromptSource::File("prompts/ask.md".to_string()), "/pack/wf"),
        PromptLocation::File("/pack/wf/prompts/ask.md".to_string())
    );
    let bash = Node::new("b".to_string(), NodeKind::Bash { run: "make".to_string() });
    let audit = audit_node(&bash, None, Some(Ok("ignored".to_string())));
    assert_eq!((audit.kind.as_str(), audit.command, audit.prompt), ("bash", Some("make".to_string()), None));
    assert_eq!(describe_context(&ContextSpec::Knowledge { layers: vec!["repo".to_string(), "user".to_string()] }), "knowledge: layers=[repo, user]");
}

#[test]
fn a_pack_names_what_the_config_lacks() {
    let manifest = PackManifest {
        publisher: "acme".to_string(),
        name: "review".to_string(),
        requires: PackRequires {
            roles: vec!["critic".to_string(), "writer".to_string()],
            mcp_servers: vec!["docs".to_string()],
            commands: vec!["gh".to_string()],
        },
    };
    let config = ConfigLayer {
        runners: Some(vec![
            RunnerRole { name: "critic".to_string(), candidates: vec!["alpha".to_string()] },
            RunnerRole { name: "writer".to_string(), candidates: vec![] },
        ]),
        mcp_servers: None,
    };
    let gap = check_pack_requires(&manifest, &config);
    assert_eq!(gap.pack, "acme/review");
    assert_eq!(gap.missing_roles, vec!["writer".to_string()]);
    assert_eq!(gap.missing_mcp_servers, vec!["docs".to_string()]);
    assert!(!gap.is_satisfied());
}
