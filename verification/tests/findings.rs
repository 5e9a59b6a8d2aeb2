use yunta_engine::events::Finding;
use yunta_engine::findings::{dedup_findings, findings_gate, last_percentage, normalized_title, severity_rank, GateVerdict};
use yunta_engine::workflow::FindingSeverity;

fn finding(id: &str, severity: FindingSeverity, title: &str, location: &str) -> Finding {
    Finding { id: id.to_string(), severity, title: title.to_string(), location: location.to_string(), detail: String::new() }
}

#[test]
fn severities_rank_worst_first() {
    assert_eq!(severity_rank(FindingSeverity::Blocking), 0);
    assert_eq!(severity_rank(FindingSeverity::Note), 3);
}

#[test]
fn the_gate_names_every_finding_at_or_above_its_severity() {
    let findings = vec![
        finding("f1", FindingSeverity::Minor, "x", "a.rs"),
        finding("f2", FindingSeverity::Blocking, "y", "b.rs"),
        finding("f3", FindingSeverity::Major, "z", "c.rs"),
    ];
    assert_eq!(
        findings_gate(&findings, FindingSeverity::Major),
        GateVerdict::Fail { message: "2 finding(s) at or above Major: f2, f3".to_string() }
    );
    assert_eq!(
        findings_gate(&findings[..1].to_vec(), FindingSeverity::Major),
        GateVerdict::Pass { outcome: "no finding at or above Major".to_string() }
    );
}

#[test]
fn the_same_complaint_about_the_same_place_is_counted_once() {
    assert_eq!(normalized_title("  Scope  expansion\tDENIED "), "scope expansion denied");
    let findings = vec![
        finding("f1", FindingSeverity::Major, "Scope  expansion DENIED", "src/a.rs"),
        finding("f2", FindingSeverity::Minor, "scope expansion denied", "src/a.rs"),
        finding("f3", FindingSeverity::Major, "scope expansion denied", "src/b.rs"),
    ];
    let kept = dedup_findings(&findings);
    assert_eq!(kept.iter().map(|f| f.id.clone()).collect::<Vec<_>>(), vec!["f1".to_string(), "f3".to_string()]);
}

#[test]
fn the_last_percentage_figure_is_the_measured_coverage() {
    assert_eq!(last_percentage("lines: 71.5% branches: 64%"), Some("64".to_string()));
    assert_eq!(last_percentage("TOTAL 88.25%\n"), Some("88.25".to_string()));
    assert_eq!(last_percentage("v1.2.3%"), Some("2.3".to_string()));
    assert_eq!(last_percentage("50% then .%"), Some("50".to_string()));
    assert_eq!(last_percentage("no figure here %"), None);
    assert_eq!(last_percentage(""), None);
}
