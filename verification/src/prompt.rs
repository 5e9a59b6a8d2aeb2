//! A `prompt` node's one session, as the engine decides it: the text it
//! receives, whether it continues an interrupted session or opens fresh,
//! and what the way it ended comes to. Rendering, opening and running the
//! session are the caller's.

use vstd::prelude::*;
use vstd::string::StringExecFns;

use crate::workflow::{OnInterrupt, PromptSource};

verus! {

/// A node's prompt text: the inline text, or, for a `{file: ...}` prompt,
/// the content the manifest froze at the run's creation (never a re-read
/// from disk), empty when the manifest holds none.
pub open spec fn prompt_text_spec(prompt: PromptSource, frozen: Option<Seq<char>>) -> Seq<char> {
    match prompt {
        PromptSource::Inline(text) => text@,
        PromptSource::File(_) => match frozen {
            Some(content) => content,
            None => Seq::empty(),
        },
    }
}

/// A node's prompt text.
pub fn prompt_text(prompt: &PromptSource, frozen: Option<&String>) -> (text: String)
    ensures
        text@ == prompt_text_spec(*prompt, match frozen {
            Some(f) => Some(f@),
            None => None,
        }),
{
    match prompt {
        PromptSource::Inline(text) => text.clone(),
        PromptSource::File(_) => match frozen {
            Some(content) => content.clone(),
            None => String::new(),
        },
    }
}

/// The whole text a session receives: the node's assembled context, when
/// it has one, a line feed, then its rendered prompt.
pub open spec fn session_text_spec(context: Option<Seq<char>>, rendered: Seq<char>) -> Seq<char> {
    match context {
        Some(block) => block + "\n"@ + rendered,
        None => rendered,
    }
}

/// The whole text a session receives.
pub fn session_text(context: Option<String>, rendered: String) -> (text: String)
    ensures
        text@ == session_text_spec(match context {
            Some(c) => Some(c@),
            None => None,
        }, rendered@),
{
    match context {
        Some(block) => {
            let mut text = block;
            text.append("\n");
            text.append(rendered.as_str());
            text
        },
        None => rendered,
    }
}

/// What the log holds of a node's interrupted session.
#[derive(Debug, Clone, PartialEq, Eq)]
pub enum OrphanedSession {
    /// The session was open under this id when the engine stopped.
    Open { session: String },
    /// The node was running but no session was recorded.
    NoneRecorded,
}

/// How a node's session opens.
#[derive(Debug, Clone, PartialEq, Eq)]
pub enum SessionOpening {
    /// It continues the interrupted session.
    Resume { session: String },
    /// It opens fresh; `degraded` when the node was to resume and cannot,
    /// which the log states rather than keeping silent.
    Fresh { degraded: bool },
}

/// How a node's session opens: under `on_interrupt: resume_session` (its
/// own, else the run's), an interrupted open session is continued when
/// the adapter can resume sessions; anything less opens fresh, and says
/// so when there was something to resume. Every other policy opens fresh.
pub open spec fn opening_spec(
    node_policy: Option<OnInterrupt>,
    run_policy: OnInterrupt,
    orphaned: Option<OrphanedSession>,
    can_resume: bool,
) -> SessionOpening {
    let policy = match node_policy {
        Some(p) => p,
        None => run_policy,
    };
    if policy != OnInterrupt::ResumeSession {
        SessionOpening::Fresh { degraded: false }
    } else {
        match orphaned {
            Some(OrphanedSession::Open { session }) => if can_resume {
                SessionOpening::Resume { session }
            } else {
                SessionOpening::Fresh { degraded: true }
            },
            Some(OrphanedSession::NoneRecorded) => SessionOpening::Fresh { degraded: true },
            None => SessionOpening::Fresh { degraded: false },
        }
    }
}

/// How a node's session opens.
pub fn session_opening(
    node_policy: Option<OnInterrupt>,
    run_policy: OnInterrupt,
    orphaned: Option<OrphanedSession>,
    can_resume: bool,
) -> (opening: SessionOpening)
    ensures
        opening == opening_spec(node_policy, run_policy, orphaned, can_resume),
{
    let policy = match node_policy {
        Some(p) => p,
        None => run_policy,
    };
    let resumes = match policy {
        OnInterrupt::ResumeSession => true,
        _ => false,
    };
    if !resumes {
        return SessionOpening::Fresh { degraded: false };
    }
    match orphaned {
        Some(OrphanedSession::Open { session }) => if can_resume {
            SessionOpening::Resume { session }
        } else {
            SessionOpening::Fresh { degraded: true }
        },
        Some(OrphanedSession::NoneRecorded) => SessionOpening::Fresh { degraded: true },
        None => SessionOpening::Fresh { degraded: false },
    }
}

/// How a dispatched session ended.
#[derive(Debug, Clone, PartialEq, Eq)]
pub enum DispatchOutcome {
    Completed { summary: String },
    Failed { message: String, retryable: bool },
    /// The session ended without a terminal event.
    Crashed,
    /// The session went past its token budget.
    BudgetExceeded { reason: String },
    Cancelled,
}

/// What a session's end does to its node.
#[derive(Debug, Clone, PartialEq, Eq)]
pub enum SessionEnd {
    /// The node closes (and is verified) with the session's summary.
    Close { summary: String },
    Fail { message: String, retryable: bool },
    /// The node ends without a verdict.
    Cancelled,
}

/// What a session's end does to its node: a session that ended without
/// a terminal event fails it retryably (the engine says so; an adapter
/// never invents one), and one past its budget fails it for good.
pub fn session_end(outcome: DispatchOutcome) -> (end: SessionEnd)
    ensures
        match outcome {
            DispatchOutcome::Completed { summary } => end == SessionEnd::Close { summary },
            DispatchOutcome::Failed { message, retryable } => end == SessionEnd::Fail { message, retryable },
            DispatchOutcome::Crashed => end matches SessionEnd::Fail { message, retryable }
                && message@ == "session ended without a terminal event"@ && retryable,
            DispatchOutcome::BudgetExceeded { reason } => end == SessionEnd::Fail { message: reason, retryable: false },
            DispatchOutcome::Cancelled => end is Cancelled,
        },
{
    match outcome {
        DispatchOutcome::Completed { summary } => SessionEnd::Close { summary },
        DispatchOutcome::Failed { message, retryable } => SessionEnd::Fail { message, retryable },
        DispatchOutcome::Crashed => SessionEnd::Fail {
            message: String::from_str("session ended without a terminal event"),
            retryable: true,
        },
        DispatchOutcome::BudgetExceeded { reason } => SessionEnd::Fail { message: reason, retryable: false },
        DispatchOutcome::Cancelled => SessionEnd::Cancelled,
    }
}

} // verus!
