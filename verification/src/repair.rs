//! The repair cycle's decisions: whether a node whose interpreted artifact
//! could not be read gets a session to rewrite it, and what that session
//! is told. The session itself is run by the caller.

use vstd::prelude::*;
use vstd::string::StringExecFns;

use crate::diagnostic::{diagnostic_text, kind_label, label, ArtifactFailure, Report};
use crate::render::{join, join_spec};
use crate::text::{decimal_spec, ordinal, texts};

verus! {

/// How many more repair sessions a node can open.
#[derive(Debug, Clone, Copy, PartialEq, Eq)]
pub enum Attempts {
    Remaining,
    /// No budget left, or no runner to dispatch a session on.
    Exhausted,
}

/// Whether another repair session is possible: a runner to dispatch it on
/// (the node's own or the configured default), and budget to pay for it.
pub fn attempts(resolves_a_runner: bool, spent: u32, budget: u32) -> (next: Attempts)
    ensures
        (next == Attempts::Remaining) == (resolves_a_runner && spent < budget),
{
    if resolves_a_runner && spent < budget { Attempts::Remaining } else { Attempts::Exhausted }
}

/// The numbered list of a report's problems.
pub open spec fn numbered(report: Report, n: int) -> Seq<char>
    decreases n,
{
    if n <= 0 || n > report.diagnostics@.len() {
        Seq::empty()
    } else {
        numbered(report, n - 1) + "\n  "@ + decimal_spec(n as nat) + ". "@ + diagnostic_text(report.diagnostics@[n - 1])
    }
}

/// One document's problems as an instruction to whoever wrote it: what
/// could not be read, and a numbered list of what to fix.
pub open spec fn rewrite_spec(report: Report) -> Seq<char> {
    "The "@ + kind_label(report.document.kind) + " you wrote at "@ + report.document.path@
        + " could not be read. Fix these and write the file again:\n"@ + numbered(report, report.diagnostics@.len() as int)
}

/// One document's problems as an instruction to whoever wrote it.
pub fn rewrite(report: &Report) -> (text: String)
    ensures
        text@ == rewrite_spec(*report),
{
    let mut text = String::from_str("The ");
    text.append(label(report.document.kind));
    text.append(" you wrote at ");
    text.append(report.document.path.as_str());
    text.append(" could not be read. Fix these and write the file again:\n");
    let ghost head = text@;
    let mut i: usize = 0;
    while i < report.diagnostics.len()
        invariant
            i <= report.diagnostics@.len(),
            text@ == head + numbered(*report, i as int),
        decreases report.diagnostics@.len() - i,
    {
        text.append("\n  ");
        let n = ordinal(i);
        text.append(n.as_str());
        text.append(". ");
        let line = report.diagnostics[i].describe();
        text.append(line.as_str());
        i = i + 1;
    }
    text
}

/// Whether a rewrite can fix a failure: only content can be rewritten; a
/// file that was never written, or is empty or too large, cannot.
pub open spec fn repairable(failure: ArtifactFailure) -> bool {
    failure is Content
}

/// What the writer of failed artifacts is told: `None` unless there is a
/// failure and every one is one a rewrite fixes; otherwise each document's
/// instruction, separated by a blank line. The shape the document must
/// have is not repeated here: the repair session gets it as its own
/// context.
pub open spec fn instruction_spec(failures: Seq<ArtifactFailure>) -> Option<Seq<char>> {
    if failures.len() == 0 || exists|i: int| 0 <= i < failures.len() && !repairable(#[trigger] failures[i]) {
        None
    } else {
        Some(join_spec(failures.map_values(|f: ArtifactFailure| match f {
            ArtifactFailure::Content(report) => rewrite_spec(report),
            ArtifactFailure::File { .. } => Seq::empty(),
        }), "\n\n"@))
    }
}

/// What the writer of failed artifacts is told, so the next attempt starts
/// from the problems rather than from the prompt that produced the wrong
/// file.
pub fn instruction(failures: &Vec<ArtifactFailure>) -> (text: Option<String>)
    ensures
        match text {
            Some(t) => instruction_spec(failures@) == Some(t@),
            None => instruction_spec(failures@) is None,
        },
{
    if failures.len() == 0 {
        return None;
    }
    let mut parts: Vec<String> = Vec::new();
    let mut i: usize = 0;
    while i < failures.len()
        invariant
            i <= failures@.len(),
            forall|k: int| 0 <= k < i ==> repairable(#[trigger] failures@[k]),
            texts(parts@) == failures@.take(i as int).map_values(|f: ArtifactFailure| match f {
                ArtifactFailure::Content(report) => rewrite_spec(report),
                ArtifactFailure::File { .. } => Seq::empty(),
            }),
        decreases failures@.len() - i,
    {
        match &failures[i] {
            ArtifactFailure::Content(report) => {
                let ghost before = texts(parts@);
                let text = rewrite(report);
                parts.push(text);
                proof {
                    assert(texts(parts@) =~= before.push(rewrite_spec(*report)));
                    assert(failures@.take(i + 1).map_values(|f: ArtifactFailure| match f {
                        ArtifactFailure::Content(report) => rewrite_spec(report),
                        ArtifactFailure::File { .. } => Seq::empty(),
                    }) =~= failures@.take(i as int).map_values(|f: ArtifactFailure| match f {
                        ArtifactFailure::Content(report) => rewrite_spec(report),
                        ArtifactFailure::File { .. } => Seq::empty(),
                    }).push(rewrite_spec(*report)));
                }
            },
            ArtifactFailure::File { .. } => {
                proof { assert(!repairable(failures@[i as int])); }
                return None;
            },
        }
        i = i + 1;
    }
    proof { assert(failures@.take(i as int) =~= failures@); }
    Some(join(&parts, "\n\n"))
}

} // verus!
