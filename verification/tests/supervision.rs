use yunta_engine::process::{CapturedOutput, ExitStatus, Outcome, PipeKind, SpawnError};
use yunta_engine::registry::{EngineProcessFile, REGISTRY_SCHEMA_VERSION};
use yunta_engine::supervise::{
    drain_step, look, recleaned, revise, settle, Captured, ChildLook, Drain, PipeEvent, PipeFailure, Waited,
};

#[test]
fn captured_output_keeps_every_chunk_in_order() {
    let mut captured = Captured::new();
    assert_eq!(captured.snapshot(), Vec::<u8>::new());
    captured.append(b"hello ");
    captured.append(b"");
    captured.append(b"world");
    assert_eq!(captured.snapshot(), b"hello world".to_vec());
}

#[test]
fn a_look_hears_the_token_before_the_deadline_before_the_child() {
    assert_eq!(look(true, true, ChildLook::Exited), Some(Waited::Cancelled));
    assert_eq!(look(false, true, ChildLook::Exited), Some(Waited::TimedOut));
    assert_eq!(look(false, false, ChildLook::Exited), Some(Waited::Exited));
    assert_eq!(look(false, false, ChildLook::Unobservable), Some(Waited::Failed));
    assert_eq!(look(false, false, ChildLook::Running), None);
}

#[test]
fn only_an_exit_gives_way_to_a_late_token_or_deadline() {
    assert_eq!(revise(Waited::Exited, true, true), Waited::Cancelled);
    assert_eq!(revise(Waited::Exited, false, true), Waited::TimedOut);
    assert_eq!(revise(Waited::Exited, false, false), Waited::Exited);
    assert_eq!(revise(Waited::TimedOut, true, false), Waited::TimedOut);
    assert_eq!(revise(Waited::Failed, true, true), Waited::Failed);
}

#[test]
fn the_first_pipe_failure_is_the_one_on_record() {
    let drain = Drain::start(Waited::Exited, false);
    assert!(!drain.abort);
    let drain = drain_step(drain, PipeEvent::Closed);
    assert!(!drain.abort && drain.failure.is_none());
    let drain = drain_step(drain, PipeEvent::Failed { stream: PipeKind::Stderr, detail: "broken".to_string() });
    assert!(drain.abort);
    let drain = drain_step(drain, PipeEvent::Panicked { detail: "later".to_string() });
    match &drain.failure {
        Some(PipeFailure::Io { stream: PipeKind::Stderr, detail }) => assert_eq!(detail, "broken"),
        other => panic!("unexpected failure {other:?}"),
    }
    let drain = drain_step(drain, PipeEvent::Cancelled);
    assert_eq!(drain.waited, Waited::Cancelled);
    let drain = drain_step(drain, PipeEvent::DeadlinePassed);
    assert_eq!(drain.waited, Waited::Cancelled);
}

#[test]
fn a_failed_second_close_is_recorded_only_after_a_clean_first_one() {
    assert!(recleaned(None, true, Some("again".to_string())).is_none());
    match recleaned(None, false, Some("again".to_string())) {
        Some(PipeFailure::Group { detail }) => assert_eq!(detail, "again"),
        other => panic!("unexpected failure {other:?}"),
    }
    match recleaned(Some(PipeFailure::Join { stream: PipeKind::Stdout, detail: "first".to_string() }), false, Some("again".to_string())) {
        Some(PipeFailure::Join { detail, .. }) => assert_eq!(detail, "first"),
        other => panic!("unexpected failure {other:?}"),
    }
    assert!(recleaned(None, false, None).is_none());
}

#[test]
fn settling_reports_failures_in_their_precedence() {
    let observed = settle(
        "sh -c x".to_string(),
        Some("no such process".to_string()),
        Some("kill failed".to_string()),
        None,
        Ok(ExitStatus { code: Some(0) }),
        Waited::Failed,
        42,
        b"out".to_vec(),
        b"err".to_vec(),
    );
    match observed {
        Err(SpawnError::Observe { command, detail, output }) => {
            assert_eq!(command, "sh -c x");
            assert_eq!(detail, "no such process");
            assert_eq!(*output, CapturedOutput { stdout: b"out".to_vec(), stderr: b"err".to_vec() });
        }
        other => panic!("unexpected {other:?}"),
    }
    let killed = settle("c".to_string(), None, Some("kill failed".to_string()), Some(PipeFailure::Group { detail: "g".to_string() }), Err("w".to_string()), Waited::Exited, 1, vec![], vec![]);
    assert!(matches!(killed, Err(SpawnError::Kill { ref detail, .. }) if detail == "kill failed"));
    let read = settle("c".to_string(), None, None, Some(PipeFailure::Io { stream: PipeKind::Stdout, detail: "r".to_string() }), Err("w".to_string()), Waited::Exited, 1, vec![], vec![]);
    assert!(matches!(read, Err(SpawnError::Read { stream: PipeKind::Stdout, .. })));
    let task = settle("c".to_string(), None, None, Some(PipeFailure::Join { stream: PipeKind::Stdout, detail: "j".to_string() }), Ok(ExitStatus { code: Some(0) }), Waited::Exited, 1, vec![], vec![]);
    assert!(matches!(task, Err(SpawnError::ReadTask { .. })));
    let waited = settle("c".to_string(), None, None, None, Err("w".to_string()), Waited::Exited, 1, vec![], vec![]);
    assert!(matches!(waited, Err(SpawnError::Wait { ref detail, .. }) if detail == "w"));
}

#[test]
fn settling_without_failures_names_the_outcome() {
    let exited = settle("c".to_string(), None, None, None, Ok(ExitStatus { code: Some(3) }), Waited::Exited, 7, b"o".to_vec(), vec![]);
    match exited {
        Ok(Outcome::Exited { status, stdout, stderr }) => {
            assert_eq!(status, ExitStatus { code: Some(3) });
            assert!(!status.success());
            assert_eq!(stdout, b"o".to_vec());
            assert!(stderr.is_empty());
        }
        other => panic!("unexpected {other:?}"),
    }
    let cancelled = settle("c".to_string(), None, None, None, Ok(ExitStatus { code: None }), Waited::Cancelled, 7, vec![], vec![]);
    assert!(matches!(cancelled, Ok(Outcome::Cancelled { pgid: 7, .. })));
    let timed_out = settle("c".to_string(), None, None, None, Ok(ExitStatus { code: None }), Waited::TimedOut, 7, vec![], vec![]);
    assert!(matches!(timed_out, Ok(Outcome::TimedOut { pgid: 7, .. })));
    assert!(ExitStatus { code: Some(0) }.success());
}

#[test]
fn spawn_errors_read_as_their_sentences() {
    let output = || Box::new(CapturedOutput { stdout: vec![], stderr: vec![] });
    assert_eq!(SpawnError::Spawn { command: "ls".to_string(), detail: "x".to_string() }.message(), "failed to spawn `ls`");
    assert_eq!(SpawnError::NoPid { command: "ls".to_string() }.message(), "`ls` spawned without a pid");
    assert_eq!(SpawnError::Wait { command: "ls".to_string(), detail: "x".to_string(), output: output() }.message(), "failed to wait for `ls`");
    assert_eq!(
        SpawnError::Observe { command: "ls".to_string(), detail: "x".to_string(), output: output() }.message(),
        "failed to observe the child process for `ls`"
    );
    assert_eq!(
        SpawnError::Kill { command: "ls".to_string(), detail: "denied".to_string(), output: output() }.message(),
        "failed to kill the process group of `ls`: denied"
    );
    assert_eq!(
        SpawnError::Read { command: "ls".to_string(), stream: PipeKind::Stderr, detail: "x".to_string(), output: output() }.message(),
        "failed to read Stderr for `ls`"
    );
    assert_eq!(
        SpawnError::ReadTask { command: "ls".to_string(), stream: PipeKind::Stdin, detail: "x".to_string(), output: output() }.message(),
        "the Stdin task for `ls` failed"
    );
}

#[test]
fn the_registry_holds_each_live_group_once() {
    let mut file = EngineProcessFile::new(100, "2024-01-01T00:00:00Z".to_string());
    assert_eq!(file.schema_version, REGISTRY_SCHEMA_VERSION);
    assert_eq!(file.engine_pid, 100);
    file.add(7);
    file.add(8);
    file.add(7);
    assert_eq!(file.process_groups, vec![7, 8]);
    file.remove(7);
    assert_eq!(file.process_groups, vec![8]);
    file.remove(9);
    assert_eq!(file.process_groups, vec![8]);
    file.add(7);
    file.remove(7);
    assert_eq!(file.process_groups, vec![8]);
    assert_eq!(file.started_at, "2024-01-01T00:00:00Z");
}
