use yunta_engine::process::{ExitStatus, Outcome};
use yunta_engine::verdict::{
    bash_verdict, executor_verdict, find_executor, stderr_tail, CommandVerdict, ExecutorRegistration,
};

fn exited(code: Option<i32>, stderr: &str) -> Outcome {
    Outcome::Exited { status: ExitStatus { code }, stdout: b"{}".to_vec(), stderr: stderr.as_bytes().to_vec() }
}

fn failed(message: &str) -> CommandVerdict {
    CommandVerdict::Failed { message: message.to_string() }
}

#[test]
fn a_failure_cites_the_last_twenty_lines_of_stderr() {
    let many: String = (1..=25).map(|i| format!("line {i}\n")).collect();
    let expected: Vec<String> = (6..=25).map(|i| format!("line {i}")).collect();
    assert_eq!(stderr_tail(&many.into_bytes()), expected.join("\n"));
    assert_eq!(stderr_tail(&b"only\r\nthree\nlines".to_vec()), "only\nthree\nlines");
    assert_eq!(stderr_tail(&vec![]), "");
    assert_eq!(stderr_tail(&vec![b'a', 0xff, b'b']), "a\u{fffd}b");
}

#[test]
fn a_bash_node_is_judged_by_its_exit_code() {
    assert_eq!(bash_verdict(&exited(Some(0), "noise")), CommandVerdict::Finished { outcome: "exit 0".to_string() });
    assert_eq!(bash_verdict(&exited(Some(2), "warning\nerror: bad\n")), failed("exit 2: warning\nerror: bad"));
    assert_eq!(bash_verdict(&exited(None, "killed")), failed("exit -1: killed"));
    assert_eq!(
        bash_verdict(&Outcome::TimedOut { pgid: 7, stdout: vec![], stderr: vec![] }),
        CommandVerdict::Cancelled
    );
    assert_eq!(
        bash_verdict(&Outcome::Cancelled { pgid: 7, stdout: vec![], stderr: vec![] }),
        CommandVerdict::Cancelled
    );
}

#[test]
fn an_executor_closes_with_its_summary_or_fails_with_its_exit() {
    let name = "lint-json".to_string();
    assert_eq!(
        executor_verdict(&name, None, &exited(Some(0), ""), Some("3 files clean".to_string())),
        CommandVerdict::Finished { outcome: "3 files clean".to_string() }
    );
    assert_eq!(
        executor_verdict(&name, None, &exited(Some(0), ""), None),
        CommandVerdict::Finished { outcome: "executor `lint-json` exited 0".to_string() }
    );
    assert_eq!(
        executor_verdict(&name, None, &exited(Some(3), "boom\n"), Some("ignored".to_string())),
        failed("executor `lint-json` exited 3: boom")
    );
    assert_eq!(
        executor_verdict(&name, Some(30), &Outcome::TimedOut { pgid: 9, stdout: vec![], stderr: vec![] }, None),
        failed("executor `lint-json` exceeded its 30s timeout")
    );
    assert_eq!(
        executor_verdict(&name, Some(30), &Outcome::Cancelled { pgid: 9, stdout: vec![], stderr: vec![] }, None),
        CommandVerdict::Cancelled
    );
}

#[test]
fn an_executor_must_be_registered() {
    let registrations = vec![
        ExecutorRegistration { name: "fmt".to_string(), path: "bin/fmt".to_string() },
        ExecutorRegistration { name: "lint".to_string(), path: "/usr/bin/lint".to_string() },
    ];
    assert_eq!(find_executor(&registrations, &"lint".to_string()), Ok(1));
    assert_eq!(
        find_executor(&registrations, &"deploy".to_string()),
        Err("executor `deploy` needs a matching entry under `skills.executors`".to_string())
    );
}
