//! One way to run a subprocess: the command the engine spawns under its
//! governance, described before it runs.

use vstd::prelude::*;
use vstd::string::StringExecFns;

use std::time::Duration;

use crate::text::texts;

verus! {

/// What to do with one of the child's output streams.
#[derive(Debug, Clone, Copy, PartialEq, Eq)]
pub enum Capture {
    /// The child writes to the engine's own stream.
    Inherit,
    /// The stream is discarded.
    Discard,
    /// The stream is read to the end and returned in the outcome.
    Collect,
}

/// A subprocess to run under the engine's governance. Its stdin is the
/// bytes given, then closed — never the engine's own stdin.
#[derive(Debug)]
pub struct GovernedCommand {
    program: String,
    args: Vec<String>,
    cwd: String,
    stdin: Option<Vec<u8>>,
    stdout: Capture,
    stderr: Capture,
    timeout: Option<Duration>,
}

/// The program and its arguments on one line, separated by single spaces.
pub open spec fn command_line(program: Seq<char>, args: Seq<Seq<char>>) -> Seq<char>
    decreases args.len(),
{
    if args.len() == 0 {
        program
    } else {
        command_line(program, args.drop_last()) + " "@ + args.last()
    }
}

impl GovernedCommand {
    pub closed spec fn program_spec(&self) -> Seq<char> {
        self.program@
    }

    pub closed spec fn args_spec(&self) -> Seq<Seq<char>> {
        texts(self.args@)
    }

    pub closed spec fn cwd_spec(&self) -> Seq<char> {
        self.cwd@
    }

    pub closed spec fn stdin_spec(&self) -> Option<Seq<u8>> {
        match self.stdin {
            Some(bytes) => Some(bytes@),
            None => None,
        }
    }

    pub closed spec fn stdout_spec(&self) -> Capture {
        self.stdout
    }

    pub closed spec fn stderr_spec(&self) -> Capture {
        self.stderr
    }

    pub closed spec fn timeout_spec(&self) -> Option<Duration> {
        self.timeout
    }

    /// `program`, run in `cwd`: no arguments, no stdin, streams
    /// inherited, no timeout.
    pub fn new(program: String, cwd: &str) -> (command: GovernedCommand)
        ensures
            command.program_spec() == program@,
            command.cwd_spec() == cwd@,
            command.args_spec().len() == 0,
            command.stdin_spec() is None,
            command.stdout_spec() == Capture::Inherit,
            command.stderr_spec() == Capture::Inherit,
            command.timeout_spec() is None,
    {
        let command = GovernedCommand {
            program,
            args: Vec::new(),
            cwd: cwd.to_string(),
            stdin: None,
            stdout: Capture::Inherit,
            stderr: Capture::Inherit,
            timeout: None,
        };
        proof { assert(texts(command.args@) =~= Seq::<Seq<char>>::empty()); }
        command
    }

    /// `sh -c <script>` in `cwd`, both streams collected.
    pub fn shell(cwd: &str, script: &str) -> (command: GovernedCommand)
        ensures
            command.program_spec() == "sh"@,
            command.cwd_spec() == cwd@,
            command.args_spec() == seq!["-c"@, script@],
            command.stdin_spec() is None,
            command.stdout_spec() == Capture::Collect,
            command.stderr_spec() == Capture::Collect,
            command.timeout_spec() is None,
    {
        let command = Self::new(String::from_str("sh"), cwd)
            .arg(String::from_str("-c"))
            .arg(script.to_string())
            .stdout(Capture::Collect)
            .stderr(Capture::Collect);
        proof { assert(command.args_spec() =~= seq!["-c"@, script@]); }
        command
    }

    /// One more argument.
    pub fn arg(self, arg: String) -> (command: GovernedCommand)
        ensures
            command.args_spec() == self.args_spec().push(arg@),
            command.program_spec() == self.program_spec(),
            command.cwd_spec() == self.cwd_spec(),
            command.stdin_spec() == self.stdin_spec(),
            command.stdout_spec() == self.stdout_spec(),
            command.stderr_spec() == self.stderr_spec(),
            command.timeout_spec() == self.timeout_spec(),
    {
        let mut command = self;
        command.args.push(arg);
        proof { assert(texts(command.args@) =~= texts(self.args@).push(arg@)); }
        command
    }

    /// Bytes written to the child's stdin, which is then closed.
    pub fn stdin(self, bytes: Vec<u8>) -> (command: GovernedCommand)
        ensures
            command.stdin_spec() == Some(bytes@),
            command.args_spec() == self.args_spec(),
            command.program_spec() == self.program_spec(),
            command.cwd_spec() == self.cwd_spec(),
            command.stdout_spec() == self.stdout_spec(),
            command.stderr_spec() == self.stderr_spec(),
            command.timeout_spec() == self.timeout_spec(),
    {
        let mut command = self;
        command.stdin = Some(bytes);
        command
    }

    pub fn stdout(self, capture: Capture) -> (command: GovernedCommand)
        ensures
            command.stdout_spec() == capture,
            command.args_spec() == self.args_spec(),
            command.program_spec() == self.program_spec(),
            command.cwd_spec() == self.cwd_spec(),
            command.stdin_spec() == self.stdin_spec(),
            command.stderr_spec() == self.stderr_spec(),
            command.timeout_spec() == self.timeout_spec(),
    {
        let mut command = self;
        command.stdout = capture;
        command
    }

    pub fn stderr(self, capture: Capture) -> (command: GovernedCommand)
        ensures
            command.stderr_spec() == capture,
            command.args_spec() == self.args_spec(),
            command.program_spec() == self.program_spec(),
            command.cwd_spec() == self.cwd_spec(),
            command.stdin_spec() == self.stdin_spec(),
            command.stdout_spec() == self.stdout_spec(),
            command.timeout_spec() == self.timeout_spec(),
    {
        let mut command = self;
        command.stderr = capture;
        command
    }

    /// How long the child may run before its whole group is killed.
    pub fn timeout(self, timeout: Duration) -> (command: GovernedCommand)
        ensures
            command.timeout_spec() == Some(timeout),
            command.args_spec() == self.args_spec(),
            command.program_spec() == self.program_spec(),
            command.cwd_spec() == self.cwd_spec(),
            command.stdin_spec() == self.stdin_spec(),
            command.stdout_spec() == self.stdout_spec(),
            command.stderr_spec() == self.stderr_spec(),
    {
        let mut command = self;
        command.timeout = Some(timeout);
        command
    }

    /// The program and its arguments on one line, for diagnostics.
    pub fn describe(&self) -> (line: String)
        ensures
            line@ == command_line(self.program_spec(), self.args_spec()),
    {
        let mut line = self.program.clone();
        let mut i: usize = 0;
        while i < self.args.len()
            invariant
                i <= self.args@.len(),
                line@ == command_line(self.program@, texts(self.args@).subrange(0, i as int)),
            decreases self.args@.len() - i,
        {
            line.append(" ");
            line.append(self.args[i].as_str());
            proof {
                assert(texts(self.args@).subrange(0, i + 1).drop_last() =~= texts(self.args@).subrange(0, i as int));
            }
            i = i + 1;
        }
        proof {
            assert(texts(self.args@).subrange(0, self.args@.len() as int) =~= texts(self.args@));
        }
        line
    }

    /// The program to run.
    pub fn program(&self) -> (program: &String)
        ensures
            program@ == self.program_spec(),
    {
        &self.program
    }

    /// Its arguments, in order.
    pub fn args(&self) -> (args: &Vec<String>)
        ensures
            texts(args@) == self.args_spec(),
    {
        &self.args
    }

    /// The directory it runs in.
    pub fn cwd(&self) -> (cwd: &String)
        ensures
            cwd@ == self.cwd_spec(),
    {
        &self.cwd
    }

    /// The bytes its stdin is given, if any.
    pub fn stdin_bytes(&self) -> (bytes: Option<&Vec<u8>>)
        ensures
            bytes matches Some(b) ==> self.stdin_spec() == Some(b@),
            bytes is None ==> self.stdin_spec() is None,
    {
        match &self.stdin {
            Some(b) => Some(b),
            None => None,
        }
    }

    /// What happens to its stdout.
    pub fn stdout_capture(&self) -> (capture: Capture)
        ensures
            capture == self.stdout_spec(),
    {
        self.stdout
    }

    /// What happens to its stderr.
    pub fn stderr_capture(&self) -> (capture: Capture)
        ensures
            capture == self.stderr_spec(),
    {
        self.stderr
    }

    /// How long it may run.
    pub fn timeout_limit(&self) -> (timeout: Option<Duration>)
        ensures
            timeout == self.timeout_spec(),
    {
        self.timeout
    }
}

/// Output already captured when supervision failed.
#[derive(Debug, Clone, PartialEq, Eq)]
pub struct CapturedOutput {
    pub stdout: Vec<u8>,
    pub stderr: Vec<u8>,
}

/// Both streams, kept together for a diagnostic.
pub fn captured_output(stdout: Vec<u8>, stderr: Vec<u8>) -> (output: Box<CapturedOutput>)
    ensures
        output.stdout@ == stdout@,
        output.stderr@ == stderr@,
{
    Box::new(CapturedOutput { stdout, stderr })
}

/// Which of the child's pipes a failure concerns.
#[derive(Debug, Clone, Copy, PartialEq, Eq)]
pub enum PipeKind {
    Stdin,
    Stdout,
    Stderr,
}

/// The name a pipe is reported under.
pub open spec fn pipe_name(stream: PipeKind) -> Seq<char> {
    match stream {
        PipeKind::Stdin => "Stdin"@,
        PipeKind::Stdout => "Stdout"@,
        PipeKind::Stderr => "Stderr"@,
    }
}

impl PipeKind {
    /// The name a pipe is reported under.
    pub fn name(self) -> (name: &'static str)
        ensures
            name@ == pipe_name(self),
    {
        match self {
            PipeKind::Stdin => "Stdin",
            PipeKind::Stdout => "Stdout",
            PipeKind::Stderr => "Stderr",
        }
    }
}

/// How a child that ran to its end exited: its exit code, or none when a
/// signal ended it.
#[derive(Debug, Clone, Copy, PartialEq, Eq)]
pub struct ExitStatus {
    pub code: Option<i32>,
}

impl ExitStatus {
    /// Whether the child exited with code zero.
    pub fn success(&self) -> (ok: bool)
        ensures
            ok == (self.code == Some(0i32)),
    {
        match self.code {
            Some(code) => code == 0,
            None => false,
        }
    }
}

/// How a governed subprocess ended. `stdout` and `stderr` hold what the
/// child wrote to a collected stream, and are empty otherwise.
#[derive(Debug)]
pub enum Outcome {
    Exited { status: ExitStatus, stdout: Vec<u8>, stderr: Vec<u8> },
    /// The timeout elapsed; the whole process group was killed.
    TimedOut { pgid: u32, stdout: Vec<u8>, stderr: Vec<u8> },
    /// The cancellation fired; the whole process group was killed.
    Cancelled { pgid: u32, stdout: Vec<u8>, stderr: Vec<u8> },
}

/// Why a governed subprocess could not be run to a known end. `detail`
/// is what the failing operation said.
#[derive(Debug)]
pub enum SpawnError {
    Spawn { command: String, detail: String },
    NoPid { command: String },
    Wait { command: String, detail: String, output: Box<CapturedOutput> },
    Observe { command: String, detail: String, output: Box<CapturedOutput> },
    Kill { command: String, detail: String, output: Box<CapturedOutput> },
    Read { command: String, stream: PipeKind, detail: String, output: Box<CapturedOutput> },
    ReadTask { command: String, stream: PipeKind, detail: String, output: Box<CapturedOutput> },
}

/// The sentence a spawn error is reported with.
pub open spec fn spawn_message(error: SpawnError) -> Seq<char> {
    match error {
        SpawnError::Spawn { command, .. } => "failed to spawn `"@ + command@ + "`"@,
        SpawnError::NoPid { command } => "`"@ + command@ + "` spawned without a pid"@,
        SpawnError::Wait { command, .. } => "failed to wait for `"@ + command@ + "`"@,
        SpawnError::Observe { command, .. } => "failed to observe the child process for `"@ + command@ + "`"@,
        SpawnError::Kill { command, detail, .. } => "failed to kill the process group of `"@ + command@ + "`: "@ + detail@,
        SpawnError::Read { command, stream, .. } => "failed to read "@ + pipe_name(stream) + " for `"@ + command@ + "`"@,
        SpawnError::ReadTask { command, stream, .. } => "the "@ + pipe_name(stream) + " task for `"@ + command@ + "` failed"@,
    }
}

impl SpawnError {
    /// The sentence this error is reported with.
    pub fn message(&self) -> (text: String)
        ensures
            text@ == spawn_message(*self),
    {
        match self {
            SpawnError::Spawn { command, .. } => {
                let mut text = String::from_str("failed to spawn `");
                text.append(command.as_str());
                text.append("`");
                text
            },
            SpawnError::NoPid { command } => {
                let mut text = String::from_str("`");
                text.append(command.as_str());
                text.append("` spawned without a pid");
                text
            },
            SpawnError::Wait { command, .. } => {
                let mut text = String::from_str("failed to wait for `");
                text.append(command.as_str());
                text.append("`");
                text
            },
            SpawnError::Observe { command, .. } => {
                let mut text = String::from_str("failed to observe the child process for `");
                text.append(command.as_str());
                text.append("`");
                text
            },
            SpawnError::Kill { command, detail, .. } => {
                let mut text = String::from_str("failed to kill the process group of `");
                text.append(command.as_str());
                text.append("`: ");
                text.append(detail.as_str());
                text
            },
            SpawnError::Read { command, stream, .. } => {
                let mut text = String::from_str("failed to read ");
                text.append(stream.name());
                text.append(" for `");
                text.append(command.as_str());
                text.append("`");
                text
            },
            SpawnError::ReadTask { command, stream, .. } => {
                let mut text = String::from_str("the ");
                text.append(stream.name());
                text.append(" task for `");
                text.append(command.as_str());
                text.append("` failed");
                text
            },
        }
    }
}

} // verus!
