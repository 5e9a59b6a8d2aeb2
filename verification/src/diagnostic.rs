//! What an interpreted document got wrong, as values: each problem names
//! its subject the way the document names it, with a stable code a receipt
//! can count.

use vstd::prelude::*;
use vstd::string::StringExecFns;

use crate::text::{decimal_spec, ordinal};
use crate::workflow::ArtifactKind;

verus! {

/// What a problem is about.
#[derive(Debug, Clone, PartialEq, Eq)]
pub enum Subject {
    /// The document as a whole.
    Document,
    /// A task, by its id and position.
    Task { task: String, index: usize },
    /// One criterion of a task, by its position within the task.
    Criterion { task: String, index: usize },
    /// A question, by its id when it has one and its position.
    Question { id: Option<String>, index: usize },
}

/// One problem of a document.
#[derive(Debug, Clone, PartialEq, Eq)]
pub struct Diagnostic {
    pub subject: Subject,
    /// The problem's stable name: what receipts count.
    pub code: String,
    /// What is wrong, in a sentence.
    pub message: String,
}

/// How a subject is named: `task `t1``, `task `t1`, criterion 2`,
/// `question `q1`` or `question 3`.
pub open spec fn subject_text(subject: Subject) -> Seq<char> {
    match subject {
        Subject::Document => "the document"@,
        Subject::Task { task, .. } => "task `"@ + task@ + "`"@,
        Subject::Criterion { task, index } => "task `"@ + task@ + "`, criterion "@ + decimal_spec(index as nat + 1),
        Subject::Question { id, index } => match id {
            Some(i) => "question `"@ + i@ + "`"@,
            None => "question "@ + decimal_spec(index as nat + 1),
        },
    }
}

/// How a problem reads: its subject, then what is wrong with it.
pub open spec fn diagnostic_text(diagnostic: Diagnostic) -> Seq<char> {
    subject_text(diagnostic.subject) + ": "@ + diagnostic.message@
}

impl Diagnostic {
    /// How this problem reads: its subject, then what is wrong with it.
    pub fn describe(&self) -> (text: String)
        ensures
            text@ == diagnostic_text(*self),
    {
        let mut text = match &self.subject {
            Subject::Document => String::from_str("the document"),
            Subject::Task { task, .. } => {
                let mut t = String::from_str("task `");
                t.append(task.as_str());
                t.append("`");
                t
            },
            Subject::Criterion { task, index } => {
                let mut t = String::from_str("task `");
                t.append(task.as_str());
                t.append("`, criterion ");
                let n = ordinal(*index);
                t.append(n.as_str());
                t
            },
            Subject::Question { id, index } => match id {
                Some(i) => {
                    let mut t = String::from_str("question `");
                    t.append(i.as_str());
                    t.append("`");
                    t
                },
                None => {
                    let mut t = String::from_str("question ");
                    let n = ordinal(*index);
                    t.append(n.as_str());
                    t
                },
            },
        };
        text.append(": ");
        text.append(self.message.as_str());
        text
    }
}

/// Which document, and where it was written.
#[derive(Debug, Clone, PartialEq, Eq)]
pub struct DocumentRef {
    pub kind: ArtifactKind,
    pub path: String,
}

/// How a document kind names itself to a person.
pub open spec fn kind_label(kind: ArtifactKind) -> Seq<char> {
    match kind {
        ArtifactKind::TaskLedger => "task ledger"@,
        ArtifactKind::Findings => "findings document"@,
        ArtifactKind::Questions => "questions document"@,
    }
}

/// How a document kind names itself to a person.
pub fn label(kind: ArtifactKind) -> (text: &'static str)
    ensures
        text@ == kind_label(kind),
{
    match kind {
        ArtifactKind::TaskLedger => "task ledger",
        ArtifactKind::Findings => "findings document",
        ArtifactKind::Questions => "questions document",
    }
}

/// Every problem one document has.
#[derive(Debug, Clone, PartialEq, Eq)]
pub struct Report {
    pub document: DocumentRef,
    pub diagnostics: Vec<Diagnostic>,
}

/// What is wrong with a declared file itself, before any content.
#[derive(Debug, Clone, PartialEq, Eq)]
pub enum FileProblem {
    /// The node never wrote it.
    Missing { node: String },
    Empty,
    TooLarge { limit: u64 },
}

/// Why a declared artifact failed: the file itself, or its content.
#[derive(Debug, Clone, PartialEq, Eq)]
pub enum ArtifactFailure {
    File { path: String, problem: FileProblem },
    Content(Report),
}

} // verus!
