use yunta_engine::diagnostic::{ArtifactFailure, Diagnostic, DocumentRef, FileProblem, Report, Subject};
use yunta_engine::repair::{attempts, instruction, rewrite, Attempts};
use yunta_engine::workflow::ArtifactKind;

fn ledger_report() -> Report {
    Report {
        document: DocumentRef { kind: ArtifactKind::TaskLedger, path: "artifacts/plan.yaml".to_string() },
        diagnostics: vec![
            Diagnostic {
                subject: Subject::Criterion { task: "t1".to_string(), index: 0 },
                code: "wrong-shape".to_string(),
                message: "expected a mapping with `cmd`, found a string; write it as `- cmd: \"cargo test\"`".to_string(),
            },
            Diagnostic {
                subject: Subject::Task { task: "t1".to_string(), index: 0 },
                code: "empty-scope".to_string(),
                message: "`scope` is empty".to_string(),
            },
        ],
    }
}

#[test]
fn the_instruction_names_every_problem_and_asks_for_the_file_again() {
    let text = instruction(&vec![ArtifactFailure::Content(ledger_report())]).expect("a document a rewrite fixes");
    assert!(text.contains("could not be read"), "{text}");
    assert!(text.contains("write the file again"), "{text}");
    assert!(text.contains("artifacts/plan.yaml"), "{text}");
    assert!(text.contains("1. task `t1`, criterion 1: "), "{text}");
    assert!(text.contains("2. task `t1`: "), "{text}");
}

#[test]
fn the_instruction_leaves_the_published_shape_to_the_context_block() {
    let text = instruction(&vec![ArtifactFailure::Content(ledger_report())]).expect("a document a rewrite fixes");
    assert!(!text.contains("tasks:"), "{text}");
    assert!(!text.contains("criteria:"), "{text}");
}

#[test]
fn a_file_that_was_never_written_is_not_a_file_to_rewrite() {
    assert_eq!(
        instruction(&vec![
            ArtifactFailure::Content(ledger_report()),
            ArtifactFailure::File {
                path: "artifacts/notes.md".to_string(),
                problem: FileProblem::Missing { node: "plan".to_string() },
            },
        ]),
        None
    );
}

#[test]
fn a_node_with_nothing_wrong_has_nothing_to_instruct() {
    assert_eq!(instruction(&vec![]), None);
}

#[test]
fn a_rewrite_reads_as_a_numbered_list_under_its_document() {
    assert_eq!(
        rewrite(&ledger_report()),
        "The task ledger you wrote at artifacts/plan.yaml could not be read. Fix these and write the file again:\n\
         \n  1. task `t1`, criterion 1: expected a mapping with `cmd`, found a string; write it as `- cmd: \"cargo test\"`\
         \n  2. task `t1`: `scope` is empty"
    );
}

#[test]
fn two_documents_are_instructed_apart() {
    let text = instruction(&vec![ArtifactFailure::Content(ledger_report()), ArtifactFailure::Content(ledger_report())]).unwrap();
    assert_eq!(text.matches("could not be read").count(), 2);
    assert!(text.contains("`scope` is empty\n\nThe task ledger"));
}

#[test]
fn a_repair_needs_a_runner_and_budget_left() {
    assert_eq!(attempts(true, 0, 2), Attempts::Remaining);
    assert_eq!(attempts(true, 2, 2), Attempts::Exhausted);
    assert_eq!(attempts(false, 0, 2), Attempts::Exhausted);
}
