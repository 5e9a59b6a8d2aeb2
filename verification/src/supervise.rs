//! The decisions of a governed subprocess's supervision: what each look
//! at the child, its token and its deadline means, what a failure of its
//! pipes leaves on record, and how everything it saw becomes one outcome.
//! The waiting itself is the caller's: it looks, hands the look here, and
//! does what comes back.

use vstd::prelude::*;

use crate::process::{CapturedOutput, ExitStatus, Outcome, PipeKind, SpawnError};

verus! {

/// What a governed child wrote to one collected stream so far.
#[derive(Debug)]
pub struct Captured {
    bytes: Vec<u8>,
}

impl View for Captured {
    type V = Seq<u8>;

    closed spec fn view(&self) -> Seq<u8> {
        self.bytes@
    }
}

impl Captured {
    /// Nothing written yet.
    pub fn new() -> (captured: Captured)
        ensures
            captured@ == Seq::<u8>::empty(),
    {
        Captured { bytes: Vec::new() }
    }

    /// A copy of everything written so far.
    pub fn snapshot(&self) -> (copy: Vec<u8>)
        ensures
            copy@ == self@,
    {
        let mut copy: Vec<u8> = Vec::new();
        let mut i: usize = 0;
        while i < self.bytes.len()
            invariant
                i <= self.bytes@.len(),
                copy@ == self.bytes@.subrange(0, i as int),
            decreases self.bytes@.len() - i,
        {
            copy.push(self.bytes[i]);
            i = i + 1;
        }
        copy
    }

    /// `bytes`, written after what is already there.
    pub fn append(&mut self, bytes: &[u8])
        ensures
            final(self)@ == old(self)@ + bytes@,
    {
        let mut i: usize = 0;
        while i < bytes.len()
            invariant
                i <= bytes@.len(),
                self.bytes@ == old(self)@ + bytes@.subrange(0, i as int),
            decreases bytes@.len() - i,
        {
            self.bytes.push(bytes[i]);
            i = i + 1;
        }
        proof {
            assert(bytes@.subrange(0, bytes@.len() as int) =~= bytes@);
        }
    }
}

/// How the wait for a governed child ended, as the supervisor saw it.
#[derive(Debug, Clone, Copy, PartialEq, Eq, Structural)]
pub enum Waited {
    Exited,
    TimedOut,
    Cancelled,
    /// The child could not be observed.
    Failed,
}

/// What one look at the child found.
#[derive(Debug, Clone, Copy, PartialEq, Eq)]
pub enum ChildLook {
    Running,
    Exited,
    /// Whether it still runs could not be told.
    Unobservable,
}

/// What one look means while the supervisor waits for the child: the
/// cancellation is heard first, then the deadline, then the child
/// itself. `None` while nothing has happened.
pub open spec fn look_spec(cancelled: bool, deadline_passed: bool, child: ChildLook) -> Option<Waited> {
    if cancelled {
        Some(Waited::Cancelled)
    } else if deadline_passed {
        Some(Waited::TimedOut)
    } else {
        match child {
            ChildLook::Running => None,
            ChildLook::Exited => Some(Waited::Exited),
            ChildLook::Unobservable => Some(Waited::Failed),
        }
    }
}

/// What one look means while the supervisor waits for the child.
pub fn look(cancelled: bool, deadline_passed: bool, child: ChildLook) -> (verdict: Option<Waited>)
    ensures
        verdict == look_spec(cancelled, deadline_passed, child),
{
    if cancelled {
        Some(Waited::Cancelled)
    } else if deadline_passed {
        Some(Waited::TimedOut)
    } else {
        match child {
            ChildLook::Running => None,
            ChildLook::Exited => Some(Waited::Exited),
            ChildLook::Unobservable => Some(Waited::Failed),
        }
    }
}

/// The verdict after the token or the deadline fired while the group
/// was still being closed: an exit is only provisional until then, and
/// gives way to the cancellation, then to the deadline. Any other
/// verdict stands.
pub open spec fn revise_spec(waited: Waited, cancelled: bool, deadline_passed: bool) -> Waited {
    if waited == Waited::Exited {
        if cancelled {
            Waited::Cancelled
        } else if deadline_passed {
            Waited::TimedOut
        } else {
            Waited::Exited
        }
    } else {
        waited
    }
}

/// The verdict after the token or the deadline fired while the group
/// was still being closed.
pub fn revise(waited: Waited, cancelled: bool, deadline_passed: bool) -> (revised: Waited)
    ensures
        revised == revise_spec(waited, cancelled, deadline_passed),
{
    if waited == Waited::Exited {
        if cancelled {
            Waited::Cancelled
        } else if deadline_passed {
            Waited::TimedOut
        } else {
            Waited::Exited
        }
    } else {
        waited
    }
}

/// Only an exit is ever revised, and only into a cancellation or a
/// timeout: a child found cancelled, timed out or unobservable keeps
/// that verdict whatever fires later.
pub proof fn law_only_an_exit_is_revised(waited: Waited, cancelled: bool, deadline_passed: bool)
    ensures
        waited != Waited::Exited ==> revise_spec(waited, cancelled, deadline_passed) == waited,
        waited == Waited::Exited ==> revise_spec(waited, cancelled, deadline_passed) != Waited::Failed,
        revise_spec(revise_spec(waited, cancelled, deadline_passed), cancelled, deadline_passed)
            == revise_spec(waited, cancelled, deadline_passed),
{
}

/// What went wrong with the child's pipes.
#[derive(Debug)]
pub enum PipeFailure {
    /// Reading or writing the pipe failed.
    Io { stream: PipeKind, detail: String },
    /// The task that read the pipe failed.
    Join { stream: PipeKind, detail: String },
    /// Closing the process group a second time failed.
    Group { detail: String },
}

/// Where draining the child's pipes stands.
#[derive(Debug)]
pub struct Drain {
    pub waited: Waited,
    /// The first pipe failure; later ones are not recorded.
    pub failure: Option<PipeFailure>,
    /// Whether the pipes are abandoned rather than read to their end.
    pub abort: bool,
}

/// What the supervisor heard while it drained the pipes.
#[derive(Debug)]
pub enum PipeEvent {
    /// A pipe was read, or written, to its end.
    Closed,
    /// A pipe failed.
    Failed { stream: PipeKind, detail: String },
    /// A pipe's task failed.
    Panicked { detail: String },
    Cancelled,
    DeadlinePassed,
}

/// The first failure on record: an earlier one is kept.
pub open spec fn first_failure(failure: Option<PipeFailure>, later: PipeFailure) -> Option<PipeFailure> {
    match failure {
        Some(earlier) => Some(earlier),
        None => Some(later),
    }
}

/// One event of the drain. A pipe failure is recorded unless one already
/// is, and abandons the others; a cancellation or a deadline revises an
/// exit and abandons the pipes, and is not heard otherwise.
pub open spec fn drain_spec(drain: Drain, event: PipeEvent) -> Drain {
    match event {
        PipeEvent::Closed => drain,
        PipeEvent::Failed { stream, detail } => Drain {
            failure: first_failure(drain.failure, PipeFailure::Io { stream, detail }),
            abort: true,
            ..drain
        },
        PipeEvent::Panicked { detail } => Drain {
            failure: first_failure(drain.failure, PipeFailure::Join { stream: PipeKind::Stdout, detail }),
            abort: true,
            ..drain
        },
        PipeEvent::Cancelled => if drain.waited == Waited::Exited {
            Drain { waited: Waited::Cancelled, abort: true, ..drain }
        } else {
            drain
        },
        PipeEvent::DeadlinePassed => if drain.waited == Waited::Exited {
            Drain { waited: Waited::TimedOut, abort: true, ..drain }
        } else {
            drain
        },
    }
}

impl Drain {
    /// The drain once the group was closed: pipes are abandoned from the
    /// start when closing the group failed.
    pub fn start(waited: Waited, cleanup_failed: bool) -> (drain: Drain)
        ensures
            drain.waited == waited,
            drain.failure is None,
            drain.abort == cleanup_failed,
    {
        Drain { waited, failure: None, abort: cleanup_failed }
    }
}

/// One event of the drain.
pub fn drain_step(drain: Drain, event: PipeEvent) -> (next: Drain)
    ensures
        next == drain_spec(drain, event),
{
    match event {
        PipeEvent::Closed => drain,
        PipeEvent::Failed { stream, detail } => {
            let failure = match drain.failure {
                Some(earlier) => Some(earlier),
                None => Some(PipeFailure::Io { stream, detail }),
            };
            Drain { waited: drain.waited, failure, abort: true }
        },
        PipeEvent::Panicked { detail } => {
            let failure = match drain.failure {
                Some(earlier) => Some(earlier),
                None => Some(PipeFailure::Join { stream: PipeKind::Stdout, detail }),
            };
            Drain { waited: drain.waited, failure, abort: true }
        },
        PipeEvent::Cancelled => if drain.waited == Waited::Exited {
            Drain { waited: Waited::Cancelled, failure: drain.failure, abort: true }
        } else {
            drain
        },
        PipeEvent::DeadlinePassed => if drain.waited == Waited::Exited {
            Drain { waited: Waited::TimedOut, failure: drain.failure, abort: true }
        } else {
            drain
        },
    }
}

/// The first pipe failure on record stays on record, whatever the drain
/// hears after it.
pub proof fn law_the_first_pipe_failure_stands(drain: Drain, event: PipeEvent)
    requires
        drain.failure is Some,
    ensures
        drain_spec(drain, event).failure == drain.failure,
        drain_spec(drain, event).abort || !drain.abort,
{
}

/// The failure on record after the group was closed a second time, on
/// abandoned pipes: a failure of that second close is recorded only when
/// the first close succeeded, and only when nothing is on record yet.
pub open spec fn recleaned_spec(failure: Option<PipeFailure>, cleanup_failed: bool, second: Option<String>) -> Option<PipeFailure> {
    match second {
        Some(detail) => if cleanup_failed {
            failure
        } else {
            first_failure(failure, PipeFailure::Group { detail })
        },
        None => failure,
    }
}

/// The failure on record after the group was closed a second time.
pub fn recleaned(failure: Option<PipeFailure>, cleanup_failed: bool, second: Option<String>) -> (kept: Option<PipeFailure>)
    ensures
        kept == recleaned_spec(failure, cleanup_failed, second),
{
    match second {
        Some(detail) => if cleanup_failed {
            failure
        } else {
            match failure {
                Some(earlier) => Some(earlier),
                None => Some(PipeFailure::Group { detail }),
            }
        },
        None => failure,
    }
}

/// `output` holds the two streams as captured.
pub open spec fn holds(output: CapturedOutput, stdout: Seq<u8>, stderr: Seq<u8>) -> bool {
    output.stdout@ == stdout && output.stderr@ == stderr
}

/// What the supervision comes to once the leader was collected, with the
/// precedence of its failures: a failure to observe the child first,
/// then a failure to close its group, then the first pipe failure, then
/// a failure to collect the leader. With none of them, the verdict
/// names the outcome; an unobservable child that got this far counts as
/// timed out.
pub open spec fn settled(
    command: Seq<char>,
    observe: Option<String>,
    cleanup: Option<String>,
    failure: Option<PipeFailure>,
    status: Result<ExitStatus, String>,
    waited: Waited,
    pgid: u32,
    stdout: Seq<u8>,
    stderr: Seq<u8>,
    result: Result<Outcome, SpawnError>,
) -> bool {
    if observe is Some {
        result matches Err(SpawnError::Observe { command: c, detail, output })
            && c@ == command && detail@ == observe->0@ && holds(*output, stdout, stderr)
    } else if cleanup is Some {
        result matches Err(SpawnError::Kill { command: c, detail, output })
            && c@ == command && detail@ == cleanup->0@ && holds(*output, stdout, stderr)
    } else if failure is Some {
        match failure->0 {
            PipeFailure::Io { stream, detail } => result matches Err(SpawnError::Read { command: c, stream: s, detail: d, output })
                && c@ == command && s == stream && d@ == detail@ && holds(*output, stdout, stderr),
            PipeFailure::Join { stream, detail } => result matches Err(SpawnError::ReadTask { command: c, stream: s, detail: d, output })
                && c@ == command && s == stream && d@ == detail@ && holds(*output, stdout, stderr),
            PipeFailure::Group { detail } => result matches Err(SpawnError::Kill { command: c, detail: d, output })
                && c@ == command && d@ == detail@ && holds(*output, stdout, stderr),
        }
    } else {
        match status {
            Err(detail) => result matches Err(SpawnError::Wait { command: c, detail: d, output })
                && c@ == command && d@ == detail@ && holds(*output, stdout, stderr),
            Ok(code) => match waited {
                Waited::Exited => result matches Ok(Outcome::Exited { status: s, stdout: o, stderr: e })
                    && s == code && o@ == stdout && e@ == stderr,
                Waited::Cancelled => result matches Ok(Outcome::Cancelled { pgid: p, stdout: o, stderr: e })
                    && p == pgid && o@ == stdout && e@ == stderr,
                _ => result matches Ok(Outcome::TimedOut { pgid: p, stdout: o, stderr: e })
                    && p == pgid && o@ == stdout && e@ == stderr,
            },
        }
    }
}

/// What the supervision comes to once the leader was collected.
pub fn settle(
    command: String,
    observe: Option<String>,
    cleanup: Option<String>,
    failure: Option<PipeFailure>,
    status: Result<ExitStatus, String>,
    waited: Waited,
    pgid: u32,
    stdout: Vec<u8>,
    stderr: Vec<u8>,
) -> (result: Result<Outcome, SpawnError>)
    ensures
        settled(command@, observe, cleanup, failure, status, waited, pgid, stdout@, stderr@, result),
{
    match observe {
        Some(detail) => {
            return Err(SpawnError::Observe { command, detail, output: Box::new(CapturedOutput { stdout, stderr }) });
        },
        None => {},
    }
    match cleanup {
        Some(detail) => {
            return Err(SpawnError::Kill { command, detail, output: Box::new(CapturedOutput { stdout, stderr }) });
        },
        None => {},
    }
    match failure {
        Some(PipeFailure::Io { stream, detail }) => {
            return Err(SpawnError::Read { command, stream, detail, output: Box::new(CapturedOutput { stdout, stderr }) });
        },
        Some(PipeFailure::Join { stream, detail }) => {
            return Err(SpawnError::ReadTask { command, stream, detail, output: Box::new(CapturedOutput { stdout, stderr }) });
        },
        Some(PipeFailure::Group { detail }) => {
            return Err(SpawnError::Kill { command, detail, output: Box::new(CapturedOutput { stdout, stderr }) });
        },
        None => {},
    }
    match status {
        Err(detail) => Err(SpawnError::Wait { command, detail, output: Box::new(CapturedOutput { stdout, stderr }) }),
        Ok(code) => match waited {
            Waited::Exited => Ok(Outcome::Exited { status: code, stdout, stderr }),
            Waited::Cancelled => Ok(Outcome::Cancelled { pgid, stdout, stderr }),
            _ => Ok(Outcome::TimedOut { pgid, stdout, stderr }),
        },
    }
}

} // verus!
