//! What a run's close distills besides the artifacts themselves: the
//! verification evidence read off the log, which a later reader checks
//! the distillate against, and the finding a declared artifact the run
//! never produced becomes. Copying the files and writing the provenance
//! document are the caller's.

use vstd::prelude::*;
use vstd::string::StringExecFns;

use crate::events::{CriterionResult, EventBody, EventPayload, Finding, StoredEvent};
use crate::workflow::FindingSeverity;

verus! {

/// The log's verification evidence: every criterion run (how many, how
/// many green, how many reused) and every finding posted, by severity.
#[derive(Debug, Clone, Copy, PartialEq, Eq)]
pub struct DistillEvidence {
    pub executed: usize,
    pub green: usize,
    pub reused: usize,
    pub blocking: usize,
    pub major: usize,
    pub minor: usize,
    pub note: usize,
}

/// How many of `results` exited zero.
pub open spec fn green_results(results: Seq<CriterionResult>) -> nat
    decreases results.len(),
{
    if results.len() == 0 {
        0
    } else {
        green_results(results.drop_last()) + if results.last().exit_code == 0 { 1nat } else { 0nat }
    }
}

/// How many of `results` were reused.
pub open spec fn reused_results(results: Seq<CriterionResult>) -> nat
    decreases results.len(),
{
    if results.len() == 0 {
        0
    } else {
        reused_results(results.drop_last()) + if results.last().reused { 1nat } else { 0nat }
    }
}

/// Every criterion result the log recorded, in order.
pub open spec fn logged_results(events: Seq<StoredEvent>) -> Seq<CriterionResult>
    decreases events.len(),
{
    if events.len() == 0 {
        Seq::empty()
    } else {
        logged_results(events.drop_last()) + match events.last().body {
            EventBody::Known(EventPayload::CriteriaChecked { results, .. }) => results@,
            _ => Seq::empty(),
        }
    }
}

/// How many findings of `severity` the log posted.
pub open spec fn findings_of(events: Seq<StoredEvent>, severity: FindingSeverity) -> nat
    decreases events.len(),
{
    if events.len() == 0 {
        0
    } else {
        findings_of(events.drop_last(), severity) + match events.last().body {
            EventBody::Known(EventPayload::FindingPosted { finding }) => if finding.severity == severity { 1nat } else { 0nat },
            _ => 0nat,
        }
    }
}

/// The evidence a log gives.
pub open spec fn evidence_spec(events: Seq<StoredEvent>) -> DistillEvidence {
    let results = logged_results(events);
    DistillEvidence {
        executed: results.len() as usize,
        green: green_results(results) as usize,
        reused: reused_results(results) as usize,
        blocking: findings_of(events, FindingSeverity::Blocking) as usize,
        major: findings_of(events, FindingSeverity::Major) as usize,
        minor: findings_of(events, FindingSeverity::Minor) as usize,
        note: findings_of(events, FindingSeverity::Note) as usize,
    }
}

proof fn lemma_counts_bounded(results: Seq<CriterionResult>)
    ensures
        green_results(results) <= results.len(),
        reused_results(results) <= results.len(),
    decreases results.len(),
{
    if results.len() > 0 {
        lemma_counts_bounded(results.drop_last());
    }
}

proof fn lemma_findings_bounded(events: Seq<StoredEvent>, severity: FindingSeverity)
    ensures
        findings_of(events, severity) <= events.len(),
    decreases events.len(),
{
    if events.len() > 0 {
        lemma_findings_bounded(events.drop_last(), severity);
    }
}

proof fn lemma_results_prefix(events: Seq<StoredEvent>, i: int)
    requires
        0 <= i <= events.len(),
    ensures
        logged_results(events.take(i)).len() <= logged_results(events).len(),
    decreases events.len(),
{
    if i < events.len() {
        assert(events.drop_last().take(i) =~= events.take(i));
        lemma_results_prefix(events.drop_last(), i);
    } else {
        assert(events.take(i) =~= events);
    }
}

/// Reads the verification evidence off the whole log: pure over the
/// events, the same log giving the same evidence.
pub fn distill_evidence(events: &Vec<StoredEvent>) -> (evidence: DistillEvidence)
    requires
        logged_results(events@).len() <= usize::MAX,
    ensures
        evidence == evidence_spec(events@),
{
    let mut evidence = DistillEvidence { executed: 0, green: 0, reused: 0, blocking: 0, major: 0, minor: 0, note: 0 };
    let mut i: usize = 0;
    while i < events.len()
        invariant
            i <= events@.len(),
            logged_results(events@).len() <= usize::MAX,
            evidence == evidence_spec(events@.take(i as int)),
        decreases events@.len() - i,
    {
        let ghost done = events@.take(i as int);
        proof {
            assert(events@.take(i + 1).drop_last() =~= done);
            assert(events@.take(i + 1).last() == events@[i as int]);
            lemma_results_prefix(events@, i + 1);
            lemma_counts_bounded(logged_results(done));
            lemma_findings_bounded(events@.take(i + 1), FindingSeverity::Blocking);
            lemma_findings_bounded(events@.take(i + 1), FindingSeverity::Major);
            lemma_findings_bounded(events@.take(i + 1), FindingSeverity::Minor);
            lemma_findings_bounded(events@.take(i + 1), FindingSeverity::Note);
        }
        match &events[i].body {
            EventBody::Known(EventPayload::CriteriaChecked { results, .. }) => {
                let ghost before = logged_results(done);
                proof {
                    assert(logged_results(events@.take(i + 1)) == before + results@);
                    assert(before + results@.take(0) =~= before);
                }
                let mut k: usize = 0;
                while k < results.len()
                    invariant
                        k <= results@.len(),
                        before.len() + results@.len() <= usize::MAX,
                        evidence.executed == before.len() + k,
                        evidence.green == green_results(before + results@.take(k as int)),
                        evidence.reused == reused_results(before + results@.take(k as int)),
                        evidence.blocking == findings_of(done, FindingSeverity::Blocking),
                        evidence.major == findings_of(done, FindingSeverity::Major),
                        evidence.minor == findings_of(done, FindingSeverity::Minor),
                        evidence.note == findings_of(done, FindingSeverity::Note),
                    decreases results@.len() - k,
                {
                    proof {
                        assert((before + results@.take(k + 1)).drop_last() =~= before + results@.take(k as int));
                        assert((before + results@.take(k + 1)).last() == results@[k as int]);
                        lemma_counts_bounded(before + results@.take(k + 1));
                    }
                    evidence.executed = evidence.executed + 1;
                    if results[k].exit_code == 0 {
                        evidence.green = evidence.green + 1;
                    }
                    if results[k].reused {
                        evidence.reused = evidence.reused + 1;
                    }
                    k = k + 1;
                }
                proof { assert(results@.take(k as int) =~= results@); }
            },
            EventBody::Known(EventPayload::FindingPosted { finding }) => {
                match finding.severity {
                    FindingSeverity::Blocking => { evidence.blocking = evidence.blocking + 1; },
                    FindingSeverity::Major => { evidence.major = evidence.major + 1; },
                    FindingSeverity::Minor => { evidence.minor = evidence.minor + 1; },
                    FindingSeverity::Note => { evidence.note = evidence.note + 1; },
                }
            },
            _ => {},
        }
        proof { assert(logged_results(events@.take(i + 1)) =~= logged_results(done) + match events@[i as int].body {
            EventBody::Known(EventPayload::CriteriaChecked { results, .. }) => results@,
            _ => Seq::empty(),
        }); }
        i = i + 1;
    }
    proof { assert(events@.take(i as int) =~= events@); }
    evidence
}

/// The finding a declared artifact the run never produced becomes: it is
/// reported, never silently lost, and the rest distills anyway.
pub open spec fn missing_finding_spec(name: Seq<char>, finding: Finding) -> bool {
    &&& finding.id@ == "distill-missing-"@ + name
    &&& finding.severity == FindingSeverity::Minor
    &&& finding.title@ == "distill: declared artifact `"@ + name + "` was never produced"@
    &&& finding.location@ == "run.dir/artifacts/"@ + name
    &&& finding.detail@ == "the workflow's `on_finish.distill` names this artifact but no node produced it in this run"@
}

/// The finding a declared artifact the run never produced becomes.
pub fn missing_artifact_finding(name: &String) -> (finding: Finding)
    ensures
        missing_finding_spec(name@, finding),
{
    let mut id = String::from_str("distill-missing-");
    id.append(name.as_str());
    let mut title = String::from_str("distill: declared artifact `");
    title.append(name.as_str());
    title.append("` was never produced");
    let mut location = String::from_str("run.dir/artifacts/");
    location.append(name.as_str());
    Finding {
        id,
        severity: FindingSeverity::Minor,
        title,
        location,
        detail: String::from_str("the workflow's `on_finish.distill` names this artifact but no node produced it in this run"),
    }
}

} // verus!
