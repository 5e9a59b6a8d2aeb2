//! What a `bash` or `executor` node's subprocess comes to: its exit code
//! is the verdict, a failure cites the tail of what it wrote to stderr,
//! and an executor's outcome is the summary it printed, when it printed
//! one. Spawning the process and reading its JSON output are the
//! caller's.

use vstd::prelude::*;
use vstd::string::StringExecFns;

use crate::context::{lossy_text, utf8_lossy};
use crate::lines::{lines, lines_spec};
use crate::process::Outcome;
use crate::render::{join, join_spec};
use crate::text::{signed_decimal, signed_decimal_spec, decimal, decimal_spec, texts};

verus! {

/// How many lines of stderr a failure cites.
pub const STDERR_TAIL_LINES: usize = 20;

/// The last `n` lines of `text` (all of them when it has fewer), in their
/// order, joined by line feeds.
pub open spec fn tail_spec(text: Seq<char>, n: nat) -> Seq<char> {
    let all = lines_spec(text);
    let count = if all.len() < n { all.len() } else { n };
    join_spec(all.subrange(all.len() - count, all.len() as int), "\n"@)
}

/// The tail of a subprocess's stderr a failure cites: its last twenty
/// lines, read as UTF-8 with each invalid sequence replaced.
pub open spec fn stderr_tail_spec(stderr: Seq<u8>) -> Seq<char> {
    tail_spec(utf8_lossy(stderr), STDERR_TAIL_LINES as nat)
}

/// The tail of a subprocess's stderr a failure cites.
pub fn stderr_tail(stderr: &Vec<u8>) -> (tail: String)
    ensures
        tail@ == stderr_tail_spec(stderr@),
{
    let text = lossy_text(stderr.as_slice());
    let all = lines(text.as_str());
    let ghost view = texts(all@);
    let count: usize = if all.len() < STDERR_TAIL_LINES { all.len() } else { STDERR_TAIL_LINES };
    let start: usize = all.len() - count;
    let mut picked: Vec<String> = Vec::new();
    let mut k: usize = start;
    while k < all.len()
        invariant
            start <= k <= all@.len(),
            view == texts(all@),
            texts(picked@) == view.subrange(start as int, k as int),
        decreases all@.len() - k,
    {
        let ghost before = picked@;
        let item = all[k].clone();
        picked.push(item);
        proof {
            assert(item@ == view[k as int]);
            assert(picked@ == before.push(item));
            assert(texts(picked@) =~= texts(before).push(item@));
            assert(texts(picked@) =~= view.subrange(start as int, k + 1));
        }
        k = k + 1;
    }
    join(&picked, "\n")
}

/// What a node's subprocess comes to.
#[derive(Debug, Clone, PartialEq, Eq)]
pub enum CommandVerdict {
    /// The node closes with `outcome`.
    Finished { outcome: String },
    /// The node fails with `message`.
    Failed { message: String },
    /// The run's cancellation stopped it: the node ends without a verdict.
    Cancelled,
}

/// The exit code a status reports, `-1` when the process had none (a
/// signal ended it).
pub open spec fn exit_code_of(code: Option<i32>) -> i32 {
    match code {
        Some(c) => c,
        None => -1i32,
    }
}

/// What a `bash` node comes to: exit zero closes it, any other exit fails it
/// citing its stderr's tail, and an early stop (it has no timeout of its
/// own, so only the run's cancellation) ends it without a verdict.
pub open spec fn bash_verdict_spec(outcome: Outcome, verdict: CommandVerdict) -> bool {
    match outcome {
        Outcome::Exited { status, stderr, .. } => if status.code == Some(0i32) {
            verdict matches CommandVerdict::Finished { outcome: o } && o@ == "exit 0"@
        } else {
            verdict matches CommandVerdict::Failed { message }
                && message@ == "exit "@ + signed_decimal_spec(exit_code_of(status.code) as int) + ": "@ + stderr_tail_spec(stderr@)
        },
        _ => verdict is Cancelled,
    }
}

/// A `bash` node's verdict.
pub fn bash_verdict(outcome: &Outcome) -> (verdict: CommandVerdict)
    ensures
        bash_verdict_spec(*outcome, verdict),
{
    match outcome {
        Outcome::Exited { status, stderr, .. } => {
            if status.success() {
                CommandVerdict::Finished { outcome: String::from_str("exit 0") }
            } else {
                let code: i32 = match status.code {
                    Some(c) => c,
                    None => -1,
                };
                let mut message = String::from_str("exit ");
                let number = signed_decimal(code);
                message.append(number.as_str());
                message.append(": ");
                let tail = stderr_tail(stderr);
                message.append(tail.as_str());
                CommandVerdict::Failed { message }
            }
        },
        _ => CommandVerdict::Cancelled,
    }
}

/// What an `executor` node comes to: exit zero closes it with the summary it
/// printed (or a plain line when it printed none), any other exit fails it
/// citing its stderr's tail, its own timeout fails it, and the run's
/// cancellation ends it without a verdict. The exit code decides;
/// output that is empty or not the expected JSON never fails the node.
pub open spec fn executor_verdict_spec(
    executor: Seq<char>,
    timeout_seconds: Option<u64>,
    outcome: Outcome,
    summary: Option<String>,
    verdict: CommandVerdict,
) -> bool {
    match outcome {
        Outcome::Exited { status, stderr, .. } => if exit_code_of(status.code) == 0 {
            verdict matches CommandVerdict::Finished { outcome: o } && o@ == match summary {
                Some(s) => s@,
                None => "executor `"@ + executor + "` exited 0"@,
            }
        } else {
            verdict matches CommandVerdict::Failed { message }
                && message@ == "executor `"@ + executor + "` exited "@ + signed_decimal_spec(exit_code_of(status.code) as int)
                    + ": "@ + stderr_tail_spec(stderr@)
        },
        Outcome::TimedOut { .. } => verdict matches CommandVerdict::Failed { message }
            && message@ == "executor `"@ + executor + "` exceeded its "@ + decimal_spec(
                match timeout_seconds {
                    Some(t) => t as nat,
                    None => 0,
                },
            ) + "s timeout"@,
        Outcome::Cancelled { .. } => verdict is Cancelled,
    }
}

/// An `executor` node's verdict; `summary` is what its standard output
/// said under `summary`, when it was JSON that said one.
pub fn executor_verdict(executor: &String, timeout_seconds: Option<u64>, outcome: &Outcome, summary: Option<String>) -> (verdict: CommandVerdict)
    ensures
        executor_verdict_spec(executor@, timeout_seconds, *outcome, summary, verdict),
{
    match outcome {
        Outcome::Exited { status, stderr, .. } => {
            let code: i32 = match status.code {
                Some(c) => c,
                None => -1,
            };
            if code == 0 {
                let text = match summary {
                    Some(s) => s,
                    None => {
                        let mut line = String::from_str("executor `");
                        line.append(executor.as_str());
                        line.append("` exited 0");
                        line
                    },
                };
                CommandVerdict::Finished { outcome: text }
            } else {
                let mut message = String::from_str("executor `");
                message.append(executor.as_str());
                message.append("` exited ");
                let number = signed_decimal(code);
                message.append(number.as_str());
                message.append(": ");
                let tail = stderr_tail(stderr);
                message.append(tail.as_str());
                CommandVerdict::Failed { message }
            }
        },
        Outcome::TimedOut { .. } => {
            let seconds: u64 = match timeout_seconds {
                Some(t) => t,
                None => 0,
            };
            let mut message = String::from_str("executor `");
            message.append(executor.as_str());
            message.append("` exceeded its ");
            let number = decimal(seconds);
            message.append(number.as_str());
            message.append("s timeout");
            CommandVerdict::Failed { message }
        },
        Outcome::Cancelled { .. } => CommandVerdict::Cancelled,
    }
}

/// An executor the configuration registers: its name and the path of its
/// binary.
#[derive(Debug, Clone, PartialEq, Eq)]
pub struct ExecutorRegistration {
    pub name: String,
    pub path: String,
}

/// The failure of a node naming an executor the configuration does not
/// register.
pub open spec fn unregistered_spec(executor: Seq<char>) -> Seq<char> {
    "executor `"@ + executor + "` needs a matching entry under `skills.executors`"@
}

/// The first registration of `executor`, or the failure of a node naming
/// one the configuration does not register.
pub fn find_executor(registrations: &Vec<ExecutorRegistration>, executor: &String) -> (found: Result<usize, String>)
    ensures
        match found {
            Ok(i) => i < registrations@.len() && registrations@[i as int].name@ == executor@
                && forall|j: int| 0 <= j < i ==> (#[trigger] registrations@[j]).name@ != executor@,
            Err(failure) => failure@ == unregistered_spec(executor@)
                && forall|j: int| 0 <= j < registrations@.len() ==> (#[trigger] registrations@[j]).name@ != executor@,
        },
{
    let mut i: usize = 0;
    while i < registrations.len()
        invariant
            i <= registrations@.len(),
            forall|j: int| 0 <= j < i ==> (#[trigger] registrations@[j]).name@ != executor@,
        decreases registrations@.len() - i,
    {
        if crate::text::same_text(&registrations[i].name, executor) {
            return Ok(i);
        }
        i = i + 1;
    }
    let mut failure = String::from_str("executor `");
    failure.append(executor.as_str());
    failure.append("` needs a matching entry under `skills.executors`");
    Err(failure)
}

} // verus!
