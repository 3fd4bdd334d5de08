//! The conversation between the daemon's decisions and the code that acts
//! on them: an `Operation` to perform, the `Outcome` it had, and the log
//! records to write before performing it.
use vstd::prelude::*;
use crate::config::{pairs_view, strings_view};
use crate::error::{DaemonError, ErrorView};
use crate::logging::{LogEntry, LogRecord};

verus! {

/// What to do next.
pub enum Operation {
    /// Start `program` with `args` in `cwd`, with the extra environment `env`.
    Spawn { program: String, args: Vec<String>, cwd: String, env: Vec<(String, String)> },
    /// Wait for the running child to exit.
    Wait,
    /// Sleep for `millis` milliseconds.
    Sleep { millis: u64 },
    /// Ask the child with process id `pid` to terminate (`SIGTERM`), and start
    /// the clock for the grace period.
    Terminate { pid: u32 },
    /// Report how long it is since the termination request.
    CheckDeadline,
    /// Check once, without blocking, whether the child has exited.
    TryReap,
    /// Kill the child and wait for it.
    ForceKill,
    /// Fork the process.
    Fork,
    /// Start a new session (`setsid`).
    NewSession,
    /// Change to `cwd`, clear the file mode mask and close every descriptor
    /// that `crate::daemon::closes_descriptor` selects.
    Detach { cwd: String },
    /// Point standard input at `stdin` (opened for reading), and standard
    /// output and error at `stdout` and `stderr` (created if need be, and
    /// appended to).
    RedirectStdio { stdin: String, stdout: String, stderr: String },
    /// Write this process's id, as `crate::daemon::pid_file_contents` gives
    /// it, to the file `path`.
    WritePidFile { path: String },
    /// End this (parent) process with status 0.
    ExitParent,
    /// Stop with this result.
    Finish(Result<(), DaemonError>),
}

/// What an operation came to.
pub enum Outcome {
    /// The child started with this process id.
    Spawned { pid: u32 },
    /// The child could not be started; `reason` is the error's text.
    SpawnFailed { reason: String },
    /// The child exited; `success` tells whether with status 0, `code` is its
    /// exit code when it has one.
    Exited { success: bool, code: Option<i32> },
    /// Waiting for the child failed; `reason` is the error's text.
    WaitFailed { reason: String },
    /// The sleep is over.
    Slept,
    /// The termination request was sent.
    Terminated,
    /// This many milliseconds have passed since the termination request.
    Elapsed { millis: u64 },
    /// Whether the child was found to have exited.
    Reaped { exited: bool },
    /// The child was killed and waited for.
    Killed,
    /// `fork` returned `result`: -1 on failure, 0 in the child, the child's id
    /// in the parent.
    Forked { result: i32 },
    /// The platform cannot fork.
    ForkUnsupported,
    /// `setsid` returned `result`: -1 on failure.
    SessionCreated { result: i32 },
    /// The process has left its old directory, mask and descriptors behind.
    Detached,
    /// The standard streams were redirected, or opening one of the files
    /// failed.
    Redirected(Result<(), std::io::Error>),
    /// Whether the process id file was written.
    PidFileWritten { ok: bool },
}

/// An operation taken by characters.
pub enum OperationView {
    Spawn {
        program: Seq<char>,
        args: Seq<Seq<char>>,
        cwd: Seq<char>,
        env: Seq<(Seq<char>, Seq<char>)>,
    },
    Wait,
    Sleep { millis: u64 },
    Terminate { pid: u32 },
    CheckDeadline,
    TryReap,
    ForceKill,
    Fork,
    NewSession,
    Detach { cwd: Seq<char> },
    RedirectStdio { stdin: Seq<char>, stdout: Seq<char>, stderr: Seq<char> },
    WritePidFile { path: Seq<char> },
    ExitParent,
    Finish(Result<(), ErrorView>),
}

impl View for Operation {
    type V = OperationView;

    open spec fn view(&self) -> OperationView {
        match self {
            Operation::Spawn { program, args, cwd, env } => OperationView::Spawn {
                program: program@,
                args: strings_view(args@),
                cwd: cwd@,
                env: pairs_view(env@),
            },
            Operation::Wait => OperationView::Wait,
            Operation::Sleep { millis } => OperationView::Sleep { millis: *millis },
            Operation::Terminate { pid } => OperationView::Terminate { pid: *pid },
            Operation::CheckDeadline => OperationView::CheckDeadline,
            Operation::TryReap => OperationView::TryReap,
            Operation::ForceKill => OperationView::ForceKill,
            Operation::Fork => OperationView::Fork,
            Operation::NewSession => OperationView::NewSession,
            Operation::Detach { cwd } => OperationView::Detach { cwd: cwd@ },
            Operation::RedirectStdio { stdin, stdout, stderr } => OperationView::RedirectStdio {
                stdin: stdin@,
                stdout: stdout@,
                stderr: stderr@,
            },
            Operation::WritePidFile { path } => OperationView::WritePidFile { path: path@ },
            Operation::ExitParent => OperationView::ExitParent,
            Operation::Finish(r) => OperationView::Finish(
                match r {
                    Ok(()) => Ok(()),
                    Err(e) => Err(e@),
                },
            ),
        }
    }
}

/// The log records to write, then the operation to perform.
pub struct Directive {
    pub logs: Vec<LogRecord>,
    pub op: Operation,
}

/// A directive taken by characters.
pub struct DirectiveView {
    pub logs: Seq<LogEntry>,
    pub op: OperationView,
}

/// The log records taken by characters.
pub open spec fn entries_view(v: Seq<LogRecord>) -> Seq<LogEntry> {
    v.map_values(|r: LogRecord| r@)
}

impl View for Directive {
    type V = DirectiveView;

    open spec fn view(&self) -> DirectiveView {
        DirectiveView { logs: entries_view(self.logs@), op: self.op@ }
    }
}

/// The directive that writes `logs` and then performs `op`.
pub open spec fn directive(logs: Seq<LogEntry>, op: OperationView) -> DirectiveView {
    DirectiveView { logs, op }
}

/// The directive that stops with the error `e`, after writing `logs`.
pub open spec fn fail_with(logs: Seq<LogEntry>, e: ErrorView) -> DirectiveView {
    DirectiveView { logs, op: OperationView::Finish(Err(e)) }
}

} // verus!
