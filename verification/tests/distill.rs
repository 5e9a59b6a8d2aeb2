use yunta_engine::distill::{distill_evidence, missing_artifact_finding, DistillEvidence};
use yunta_engine::events::{CriterionResult, EventBody, EventPayload, Finding, Phase, StoredEvent};
use yunta_engine::workflow::FindingSeverity;

fn event(seq: u64, payload: EventPayload) -> StoredEvent {
    StoredEvent { seq, node_id: Some("loop".to_string()), body: EventBody::Known(payload) }
}

fn result(cmd: &str, exit_code: i32, reused: bool) -> CriterionResult {
    CriterionResult { cmd: cmd.to_string(), exit_code, reused }
}

fn finding(id: &str, severity: FindingSeverity) -> Finding {
    Finding { id: id.to_string(), severity, title: "t".to_string(), location: "l".to_string(), detail: "d".to_string() }
}

#[test]
fn the_evidence_counts_every_criterion_run_and_every_finding() {
    let events = vec![
        event(1, EventPayload::CriteriaChecked {
            task_id: "t1".to_string(),
            phase: Phase::Pre,
            results: vec![result("cargo test", 1, false)],
        }),
        event(2, EventPayload::CriteriaChecked {
            task_id: "t1".to_string(),
            phase: Phase::Post,
            results: vec![result("cargo test", 0, false), result("cargo clippy", 0, true), result("lint", 2, true)],
        }),
        event(3, EventPayload::FindingPosted { finding: finding("f1", FindingSeverity::Major) }),
        event(4, EventPayload::FindingPosted { finding: finding("f2", FindingSeverity::Note) }),
        event(5, EventPayload::FindingPosted { finding: finding("f3", FindingSeverity::Major) }),
        event(6, EventPayload::NodeStarted),
    ];
    assert_eq!(
        distill_evidence(&events),
        DistillEvidence { executed: 4, green: 2, reused: 2, blocking: 0, major: 2, minor: 0, note: 1 }
    );
    assert_eq!(
        distill_evidence(&vec![]),
        DistillEvidence { executed: 0, green: 0, reused: 0, blocking: 0, major: 0, minor: 0, note: 0 }
    );
}

#[test]
fn an_artifact_never_produced_is_reported() {
    let finding = missing_artifact_finding(&"summary.md".to_string());
    assert_eq!(finding.id, "distill-missing-summary.md");
    assert_eq!(finding.severity, FindingSeverity::Minor);
    assert_eq!(finding.title, "distill: declared artifact `summary.md` was never produced");
    assert_eq!(finding.location, "run.dir/artifacts/summary.md");
    assert_eq!(
        finding.detail,
        "the workflow's `on_finish.distill` names this artifact but no node produced it in this run"
    );
}
