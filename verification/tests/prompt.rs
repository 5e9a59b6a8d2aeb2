use yunta_engine::prompt::{
    prompt_text, session_end, session_opening, session_text, DispatchOutcome, OrphanedSession, SessionEnd, SessionOpening,
};
use yunta_engine::workflow::{OnInterrupt, PromptSource};

#[test]
fn a_file_prompt_reads_what_the_manifest_froze() {
    let frozen = "frozen text".to_string();
    assert_eq!(prompt_text(&PromptSource::Inline("do it".to_string()), Some(&frozen)), "do it");
    assert_eq!(prompt_text(&PromptSource::File("p.md".to_string()), Some(&frozen)), "frozen text");
    assert_eq!(prompt_text(&PromptSource::File("p.md".to_string()), None), "");
}

#[test]
fn the_context_comes_ahead_of_the_prompt() {
    assert_eq!(session_text(Some("--- context ---".to_string()), "do it".to_string()), "--- context ---\ndo it");
    assert_eq!(session_text(None, "do it".to_string()), "do it");
}

#[test]
fn an_interrupted_session_resumes_only_when_asked_and_able() {
    let open = || Some(OrphanedSession::Open { session: "s-1".to_string() });
    assert_eq!(
        session_opening(Some(OnInterrupt::ResumeSession), OnInterrupt::RestartNode, open(), true),
        SessionOpening::Resume { session: "s-1".to_string() }
    );
    assert_eq!(
        session_opening(None, OnInterrupt::ResumeSession, open(), false),
        SessionOpening::Fresh { degraded: true }
    );
    assert_eq!(
        session_opening(None, OnInterrupt::ResumeSession, Some(OrphanedSession::NoneRecorded), true),
        SessionOpening::Fresh { degraded: true }
    );
    assert_eq!(session_opening(None, OnInterrupt::ResumeSession, None, true), SessionOpening::Fresh { degraded: false });
    assert_eq!(
        session_opening(Some(OnInterrupt::RestartNode), OnInterrupt::ResumeSession, open(), true),
        SessionOpening::Fresh { degraded: false }
    );
}

#[test]
fn a_session_end_decides_the_node() {
    assert_eq!(
        session_end(DispatchOutcome::Completed { summary: "done".to_string() }),
        SessionEnd::Close { summary: "done".to_string() }
    );
    assert_eq!(
        session_end(DispatchOutcome::Failed { message: "no".to_string(), retryable: false }),
        SessionEnd::Fail { message: "no".to_string(), retryable: false }
    );
    assert_eq!(
        session_end(DispatchOutcome::Crashed),
        SessionEnd::Fail { message: "session ended without a terminal event".to_string(), retryable: true }
    );
    assert_eq!(
        session_end(DispatchOutcome::BudgetExceeded { reason: "over budget".to_string() }),
        SessionEnd::Fail { message: "over budget".to_string(), retryable: false }
    );
    assert_eq!(session_end(DispatchOutcome::Cancelled), SessionEnd::Cancelled);
}
