//! Supervising the child process: start it, wait for it, restart it after a
//! delay, give up at the restart limit, and stop it on request.
use vstd::prelude::*;
use vstd::string::StringExecFns;
use crate::config::{Config, ConfigView, copy_pairs, copy_strings};
use crate::directive::{Directive, DirectiveView, Operation, OperationView, Outcome, directive, fail_with};
use crate::error::{DaemonError, ErrorView};
use crate::logging::{LogEntry, LogLevel, LogRecord, entry};
use crate::text::{decimal, join, push_decimal, push_joined, push_signed_decimal, signed_decimal};

verus! {

/// Where the supervisor stands between two operations.
#[derive(Clone, Copy, Debug, PartialEq, Eq, Structural)]
pub enum SupervisorPhase {
    /// Not started.
    Idle,
    /// A spawn was asked for.
    Spawning,
    /// The child runs; its exit is awaited.
    Running,
    /// The child exited; the restart delay is being slept.
    Resting,
    /// A termination request was asked for.
    Terminating,
    /// The time since the termination request is awaited.
    Deadline,
    /// A non-blocking check of the child is awaited.
    Reaping,
    /// A short sleep between two checks is being slept.
    Backoff,
    /// A forced kill was asked for.
    Killing,
    /// Finished: nothing more is awaited.
    Halted,
}

/// Supervises one child process.
pub struct ProcessManager {
    config: Config,
    child_pid: Option<u32>,
    restart_count: u32,
    phase: SupervisorPhase,
    restarting: bool,
}

/// The supervisor's state taken by characters.
pub struct ManagerView {
    pub config: ConfigView,
    pub child_pid: Option<u32>,
    pub restart_count: u32,
    pub phase: SupervisorPhase,
    /// Whether the shutdown under way is a restart: the child is started
    /// again once the old one is gone.
    pub restarting: bool,
}

impl View for ProcessManager {
    type V = ManagerView;

    closed spec fn view(&self) -> ManagerView {
        ManagerView {
            config: self.config@,
            child_pid: self.child_pid,
            restart_count: self.restart_count,
            phase: self.phase,
            restarting: self.restarting,
        }
    }
}

/// The grace period, in milliseconds, that a child gets to exit after a
/// termination request before it is killed.
pub open spec fn grace_period_millis() -> u64 {
    5000
}

/// The pause, in milliseconds, between two checks of a terminating child.
pub open spec fn poll_interval_millis() -> u64 {
    100
}

/// The command line as logged: the command, a space, then the arguments
/// separated by spaces.
pub open spec fn command_line(c: ConfigView) -> Seq<char> {
    c.command + " "@ + join(c.args, " "@)
}

/// Whether the restart limit is reached. The limit counts restarts, and the
/// first start is not one: with a limit of `m` the child is started at most
/// `m + 1` times.
pub open spec fn limit_reached(s: ManagerView) -> bool {
    s.config.max_restarts matches Some(m) && s.restart_count > m
}

/// The message given when the restart limit `m` is reached.
pub open spec fn limit_message(m: u32) -> Seq<char> {
    "Maximum restart limit ("@ + decimal(m as nat) + ") reached. Stopping daemon."@
}

/// The log message for a child that started.
pub open spec fn started_message(pid: u32, n: u32) -> Seq<char> {
    "Process started (PID: Some("@ + decimal(pid as nat) + "), restart #"@ + decimal(n as nat)
        + ")"@
}

/// The exit code that a log line reports: the child's code, or -1 when it
/// has none (killed by a signal).
pub open spec fn reported_code(code: Option<i32>) -> int {
    match code {
        Some(c) => c as int,
        None => -1,
    }
}

/// The log record for a child's exit.
pub open spec fn exit_entry(success: bool, code: Option<i32>) -> LogEntry {
    if success {
        entry(LogLevel::Success, "Process exited normally"@)
    } else {
        entry(LogLevel::Warn, "Process exited with code "@ + signed_decimal(reported_code(code)))
    }
}

/// The log record that announces the next restart.
pub open spec fn schedule_entry(count: u32) -> LogEntry {
    entry(LogLevel::Info, "Scheduling restart #"@ + decimal(count as nat + 1))
}

/// The start of each round: give up at the restart limit, else ask for the
/// child to be spawned.
pub open spec fn next_attempt(s: ManagerView) -> (ManagerView, DirectiveView) {
    if limit_reached(s) {
        let msg = limit_message(s.config.max_restarts->0);
        (
            ManagerView { phase: SupervisorPhase::Halted, restarting: false, ..s },
            fail_with(seq![entry(LogLevel::Error, msg)], ErrorView::Process(msg)),
        )
    } else {
        (
            ManagerView { phase: SupervisorPhase::Spawning, restarting: false, ..s },
            directive(
                seq![entry(LogLevel::Info, "Executing: "@ + command_line(s.config))],
                OperationView::Spawn {
                    program: s.config.command,
                    args: s.config.args,
                    cwd: s.config.cwd,
                    env: s.config.env,
                },
            ),
        )
    }
}

/// Starting the supervisor: a log record, then the first round.
pub open spec fn manager_start(s: ManagerView) -> (ManagerView, DirectiveView) {
    let (t, d) = next_attempt(s);
    (t, directive(seq![entry(LogLevel::Info, "Starting process manager..."@)] + d.logs, d.op))
}

/// Which outcomes the supervisor awaits in each phase.
pub open spec fn awaits(phase: SupervisorPhase, o: Outcome) -> bool {
    match phase {
        SupervisorPhase::Spawning => o is Spawned || o is SpawnFailed,
        SupervisorPhase::Running => o is Exited || o is WaitFailed,
        SupervisorPhase::Resting => o is Slept,
        SupervisorPhase::Terminating => o is Terminated,
        SupervisorPhase::Deadline => o is Elapsed,
        SupervisorPhase::Reaping => o is Reaped,
        SupervisorPhase::Backoff => o is Slept,
        SupervisorPhase::Killing => o is Killed,
        _ => false,
    }
}

/// The supervisor's answer to the outcome of the operation it asked for.
pub open spec fn manager_resume(s: ManagerView, o: Outcome) -> (ManagerView, DirectiveView) {
    match (s.phase, o) {
        (SupervisorPhase::Spawning, Outcome::Spawned { pid }) => {
            let n = (s.restart_count + 1) as u32;
            (
                ManagerView {
                    child_pid: Some(pid),
                    restart_count: n,
                    phase: SupervisorPhase::Running,
                    ..s
                },
                directive(
                    seq![entry(LogLevel::Success, started_message(pid, n))],
                    OperationView::Wait,
                ),
            )
        },
        (SupervisorPhase::Spawning, Outcome::SpawnFailed { reason }) => (
            ManagerView { phase: SupervisorPhase::Halted, ..s },
            fail_with(
                seq![],
                ErrorView::Process(
                    "Failed to spawn '"@ + command_line(s.config) + "': "@ + reason@,
                ),
            ),
        ),
        (SupervisorPhase::Running, Outcome::Exited { success, code }) => (
            ManagerView { child_pid: None, phase: SupervisorPhase::Resting, ..s },
            directive(
                seq![exit_entry(success, code), schedule_entry(s.restart_count)],
                OperationView::Sleep { millis: s.config.restart_delay },
            ),
        ),
        (SupervisorPhase::Running, Outcome::WaitFailed { reason }) => (
            ManagerView { child_pid: None, phase: SupervisorPhase::Halted, ..s },
            fail_with(seq![], ErrorView::Process("Failed to wait for process: "@ + reason@)),
        ),
        (SupervisorPhase::Resting, Outcome::Slept) => next_attempt(s),
        (SupervisorPhase::Terminating, Outcome::Terminated) => (
            ManagerView { phase: SupervisorPhase::Deadline, ..s },
            directive(seq![], OperationView::CheckDeadline),
        ),
        (SupervisorPhase::Deadline, Outcome::Elapsed { millis }) => {
            if millis < grace_period_millis() {
                (
                    ManagerView { phase: SupervisorPhase::Reaping, ..s },
                    directive(seq![], OperationView::TryReap),
                )
            } else {
                (
                    ManagerView { phase: SupervisorPhase::Killing, ..s },
                    directive(
                        seq![entry(LogLevel::Warn, "Force killing child process..."@)],
                        OperationView::ForceKill,
                    ),
                )
            }
        },
        (SupervisorPhase::Reaping, Outcome::Reaped { exited }) => {
            if exited && s.restarting {
                let (t, d) = next_attempt(s);
                (
                    t,
                    directive(
                        seq![entry(LogLevel::Success, "Child process terminated gracefully"@)]
                            + d.logs,
                        d.op,
                    ),
                )
            } else if exited {
                (
                    ManagerView { phase: SupervisorPhase::Halted, ..s },
                    directive(
                        seq![entry(LogLevel::Success, "Child process terminated gracefully"@)],
                        OperationView::Finish(Ok(())),
                    ),
                )
            } else {
                (
                    ManagerView { phase: SupervisorPhase::Backoff, ..s },
                    directive(seq![], OperationView::Sleep { millis: poll_interval_millis() }),
                )
            }
        },
        (SupervisorPhase::Backoff, Outcome::Slept) => (
            ManagerView { phase: SupervisorPhase::Deadline, ..s },
            directive(seq![], OperationView::CheckDeadline),
        ),
        (SupervisorPhase::Killing, Outcome::Killed) => {
            if s.restarting {
                next_attempt(s)
            } else {
                (
                    ManagerView { phase: SupervisorPhase::Halted, ..s },
                    directive(
                        seq![entry(LogLevel::Success, "Process manager stopped"@)],
                        OperationView::Finish(Ok(())),
                    ),
                )
            }
        },
        _ => (s, directive(seq![], OperationView::Finish(Ok(())))),
    }
}

/// Stopping the supervisor: a running child is asked to terminate; without
/// one the supervisor is stopped at once.
pub open spec fn manager_stop(s: ManagerView) -> (ManagerView, DirectiveView) {
    match s.child_pid {
        Some(pid) => (
            ManagerView {
                child_pid: None,
                phase: SupervisorPhase::Terminating,
                restarting: false,
                ..s
            },
            directive(
                seq![
                    entry(LogLevel::Info, "Stopping process manager..."@),
                    entry(LogLevel::Info, "Sending SIGTERM to child process..."@),
                ],
                OperationView::Terminate { pid },
            ),
        ),
        None => (
            ManagerView { phase: SupervisorPhase::Halted, restarting: false, ..s },
            directive(
                seq![
                    entry(LogLevel::Info, "Stopping process manager..."@),
                    entry(LogLevel::Success, "Process manager stopped"@),
                ],
                OperationView::Finish(Ok(())),
            ),
        ),
    }
}

/// Restarting the child: a running child is asked to terminate (and killed
/// after the grace period) and then started again; without one a new round
/// begins at once. The restart limit applies as for any other start.
pub open spec fn manager_restart(s: ManagerView) -> (ManagerView, DirectiveView) {
    match s.child_pid {
        Some(pid) => (
            ManagerView {
                child_pid: None,
                phase: SupervisorPhase::Terminating,
                restarting: true,
                ..s
            },
            directive(
                seq![
                    entry(LogLevel::Info, "Restarting child process..."@),
                    entry(LogLevel::Info, "Sending SIGTERM to child process..."@),
                ],
                OperationView::Terminate { pid },
            ),
        ),
        None => {
            let (t, d) = next_attempt(s);
            (t, directive(seq![entry(LogLevel::Info, "Restarting child process..."@)] + d.logs, d.op))
        },
    }
}

/// What an outcome needs of the state so that the arithmetic stays in range:
/// one more start, or announcing one more restart, must fit in the counter.
pub open spec fn counter_room(s: ManagerView, o: Outcome) -> bool {
    (o is Spawned || o is Exited) ==> s.restart_count < u32::MAX
}



/// `d` with `first` logged before its own records.
fn prepend(first: LogRecord, d: Directive) -> (r: Directive)
    ensures
        r@ == directive(seq![first@] + d@.logs, d@.op),
{
    let mut logs: Vec<LogRecord> = Vec::new();
    logs.push(first);
    let ghost rest = d.logs@;
    let mut rest_logs = d.logs;
    logs.append(&mut rest_logs);
    let r = Directive { logs, op: d.op };
    assert(r@.logs =~= seq![first@] + d@.logs);
    r
}

impl ProcessManager {
    /// A supervisor for the given configuration, not yet started, with no
    /// restarts counted.
    pub fn new(config: Config) -> (r: ProcessManager)
        ensures
            r@ == (ManagerView {
                config: config@,
                child_pid: None,
                restart_count: 0,
                phase: SupervisorPhase::Idle,
                restarting: false,
            }),
    {
        ProcessManager {
            config,
            child_pid: None,
            restart_count: 0,
            phase: SupervisorPhase::Idle,
            restarting: false,
        }
    }

    /// How many times the child has been started.
    pub fn get_restart_count(&self) -> (r: u32)
        ensures
            r == self@.restart_count,
    {
        self.restart_count
    }

    /// The command line as logged.
    fn command_line(&self) -> (r: String)
        ensures
            r@ == command_line(self.config@),
    {
        let mut r = self.config.command.clone();
        r.append(" ");
        push_joined(&mut r, &self.config.args, " ");
        r
    }

    fn next_attempt(&mut self) -> (d: Directive)
        ensures
            (final(self)@, d@) == next_attempt(old(self)@),
    {
        let mut logs: Vec<LogRecord> = Vec::new();
        self.restarting = false;
        if let Some(m) = self.config.max_restarts {
            if self.restart_count > m {
                let mut msg = String::from_str("Maximum restart limit (");
                push_decimal(&mut msg, m as u64);
                msg.append(") reached. Stopping daemon.");
                assert(msg@ =~= limit_message(m));
                logs.push(LogRecord::new(LogLevel::Error, msg.clone()));
                self.phase = SupervisorPhase::Halted;
                let d = Directive { logs, op: Operation::Finish(Err(DaemonError::Process(msg))) };
                assert(d@.logs =~= seq![entry(LogLevel::Error, limit_message(m))]);
                return d;
            }
        }
        let mut msg = String::from_str("Executing: ");
        msg.append(self.command_line().as_str());
        logs.push(LogRecord::new(LogLevel::Info, msg));
        self.phase = SupervisorPhase::Spawning;
        let op = Operation::Spawn {
            program: self.config.command.clone(),
            args: copy_strings(&self.config.args),
            cwd: self.config.cwd.clone(),
            env: copy_pairs(&self.config.env),
        };
        let d = Directive { logs, op };
        assert(d@.logs =~= seq![entry(LogLevel::Info, "Executing: "@ + command_line(self.config@))]);
        d
    }

    /// Starts supervising: gives the first operation to perform, which is to
    /// spawn the child (the first start is not a restart, so it comes even
    /// with a restart limit of zero).
    pub fn start(&mut self) -> (d: Directive)
        ensures
            (final(self)@, d@) == manager_start(old(self)@),
    {
        let first = LogRecord::from_text(LogLevel::Info, "Starting process manager...");
        let d = self.next_attempt();
        prepend(first, d)
    }

    /// Restarts the child: asks a running child to terminate and, once it is
    /// gone, starts it again; without a running child a new round begins at
    /// once.
    pub fn restart(&mut self) -> (d: Directive)
        ensures
            (final(self)@, d@) == manager_restart(old(self)@),
    {
        match self.child_pid {
            Some(pid) => {
                self.child_pid = None;
                self.phase = SupervisorPhase::Terminating;
                self.restarting = true;
                let mut logs: Vec<LogRecord> = Vec::new();
                logs.push(LogRecord::from_text(LogLevel::Info, "Restarting child process..."));
                logs.push(LogRecord::from_text(LogLevel::Info, "Sending SIGTERM to child process..."));
                let d = Directive { logs, op: Operation::Terminate { pid } };
                assert(d@.logs =~= seq![
                    entry(LogLevel::Info, "Restarting child process..."@),
                    entry(LogLevel::Info, "Sending SIGTERM to child process..."@),
                ]);
                d
            },
            None => {
                let first = LogRecord::from_text(LogLevel::Info, "Restarting child process...");
                let d = self.next_attempt();
                prepend(first, d)
            },
        }
    }

    /// Whether `outcome` is one that the supervisor awaits now, with room in
    /// the counter, so that `resume` may be given it.
    pub fn accepts(&self, outcome: &Outcome) -> (r: bool)
        ensures
            r == (awaits(self@.phase, *outcome) && counter_room(self@, *outcome)),
    {
        let awaited = match self.phase {
            SupervisorPhase::Spawning => matches!(outcome, Outcome::Spawned { .. } | Outcome::SpawnFailed { .. }),
            SupervisorPhase::Running => matches!(outcome, Outcome::Exited { .. } | Outcome::WaitFailed { .. }),
            SupervisorPhase::Resting => matches!(outcome, Outcome::Slept),
            SupervisorPhase::Terminating => matches!(outcome, Outcome::Terminated),
            SupervisorPhase::Deadline => matches!(outcome, Outcome::Elapsed { .. }),
            SupervisorPhase::Reaping => matches!(outcome, Outcome::Reaped { .. }),
            SupervisorPhase::Backoff => matches!(outcome, Outcome::Slept),
            SupervisorPhase::Killing => matches!(outcome, Outcome::Killed),
            _ => false,
        };
        let room = match outcome {
            Outcome::Spawned { .. } | Outcome::Exited { .. } => self.restart_count < u32::MAX,
            _ => true,
        };
        awaited && room
    }

    /// Takes the outcome of the operation last asked for and gives the next
    /// operation.
    pub fn resume(&mut self, outcome: Outcome) -> (d: Directive)
        requires
            awaits(old(self)@.phase, outcome),
            counter_room(old(self)@, outcome),
        ensures
            (final(self)@, d@) == manager_resume(old(self)@, outcome),
    {
        let ghost s = self@;
        let ghost o = outcome;
        let mut logs: Vec<LogRecord> = Vec::new();
        match outcome {
            Outcome::Spawned { pid } => {
                self.child_pid = Some(pid);
                self.restart_count = self.restart_count + 1;
                self.phase = SupervisorPhase::Running;
                let mut msg = String::from_str("Process started (PID: Some(");
                push_decimal(&mut msg, pid as u64);
                msg.append("), restart #");
                push_decimal(&mut msg, self.restart_count as u64);
                msg.append(")");
                assert(msg@ =~= started_message(pid, self.restart_count));
                logs.push(LogRecord::new(LogLevel::Success, msg));
                let d = Directive { logs, op: Operation::Wait };
                assert(d@.logs =~= seq![entry(LogLevel::Success, started_message(pid, self.restart_count))]);
                d
            },
            Outcome::SpawnFailed { reason } => {
                self.phase = SupervisorPhase::Halted;
                let mut msg = String::from_str("Failed to spawn '");
                msg.append(self.command_line().as_str());
                msg.append("': ");
                msg.append(reason.as_str());
                let d = Directive { logs, op: Operation::Finish(Err(DaemonError::Process(msg))) };
                assert(d@.logs =~= Seq::<LogEntry>::empty());
                d
            },
            Outcome::Exited { success, code } => {
                self.child_pid = None;
                self.phase = SupervisorPhase::Resting;
                if success {
                    logs.push(LogRecord::from_text(LogLevel::Success, "Process exited normally"));
                } else {
                    let c: i64 = match code {
                        Some(c) => c as i64,
                        None => -1,
                    };
                    let mut msg = String::from_str("Process exited with code ");
                    push_signed_decimal(&mut msg, c);
                    logs.push(LogRecord::new(LogLevel::Warn, msg));
                }
                let mut msg = String::from_str("Scheduling restart #");
                push_decimal(&mut msg, self.restart_count as u64 + 1);
                logs.push(LogRecord::new(LogLevel::Info, msg));
                let d = Directive { logs, op: Operation::Sleep { millis: self.config.restart_delay } };
                assert(d@.logs =~= seq![exit_entry(success, code), schedule_entry(s.restart_count)]);
                d
            },
            Outcome::WaitFailed { reason } => {
                self.child_pid = None;
                self.phase = SupervisorPhase::Halted;
                let msg = String::from_str("Failed to wait for process: ").concat(reason.as_str());
                let d = Directive { logs, op: Operation::Finish(Err(DaemonError::Process(msg))) };
                assert(d@.logs =~= Seq::<LogEntry>::empty());
                d
            },
            Outcome::Slept => {
                if self.phase == SupervisorPhase::Resting {
                    self.next_attempt()
                } else {
                    self.phase = SupervisorPhase::Deadline;
                    let d = Directive { logs, op: Operation::CheckDeadline };
                    assert(d@.logs =~= Seq::<LogEntry>::empty());
                    d
                }
            },
            Outcome::Terminated => {
                self.phase = SupervisorPhase::Deadline;
                let d = Directive { logs, op: Operation::CheckDeadline };
                assert(d@.logs =~= Seq::<LogEntry>::empty());
                d
            },
            Outcome::Elapsed { millis } => {
                if millis < 5000 {
                    self.phase = SupervisorPhase::Reaping;
                    let d = Directive { logs, op: Operation::TryReap };
                    assert(d@.logs =~= Seq::<LogEntry>::empty());
                    d
                } else {
                    self.phase = SupervisorPhase::Killing;
                    logs.push(LogRecord::from_text(LogLevel::Warn, "Force killing child process..."));
                    let d = Directive { logs, op: Operation::ForceKill };
                    assert(d@.logs =~= seq![entry(LogLevel::Warn, "Force killing child process..."@)]);
                    d
                }
            },
            Outcome::Reaped { exited } => {
                if exited && self.restarting {
                    let first = LogRecord::from_text(LogLevel::Success, "Child process terminated gracefully");
                    let d = self.next_attempt();
                    return prepend(first, d);
                } else if exited {
                    self.phase = SupervisorPhase::Halted;
                    logs.push(LogRecord::from_text(LogLevel::Success, "Child process terminated gracefully"));
                    let d = Directive { logs, op: Operation::Finish(Ok(())) };
                    assert(d@.logs =~= seq![entry(LogLevel::Success, "Child process terminated gracefully"@)]);
                    d
                } else {
                    self.phase = SupervisorPhase::Backoff;
                    let d = Directive { logs, op: Operation::Sleep { millis: 100 } };
                    assert(d@.logs =~= Seq::<LogEntry>::empty());
                    d
                }
            },
            Outcome::Killed => {
                if self.restarting {
                    return self.next_attempt();
                }
                self.phase = SupervisorPhase::Halted;
                logs.push(LogRecord::from_text(LogLevel::Success, "Process manager stopped"));
                let d = Directive { logs, op: Operation::Finish(Ok(())) };
                assert(d@.logs =~= seq![entry(LogLevel::Success, "Process manager stopped"@)]);
                d
            },
            _ => {
                let d = Directive { logs, op: Operation::Finish(Ok(())) };
                d
            },
        }
    }

    /// Stops supervising: asks a running child to terminate, or stops at once
    /// when there is none.
    pub fn stop(&mut self) -> (d: Directive)
        ensures
            (final(self)@, d@) == manager_stop(old(self)@),
    {
        let mut logs: Vec<LogRecord> = Vec::new();
        logs.push(LogRecord::from_text(LogLevel::Info, "Stopping process manager..."));
        match self.child_pid {
            Some(pid) => {
                self.child_pid = None;
                self.phase = SupervisorPhase::Terminating;
                self.restarting = false;
                logs.push(LogRecord::from_text(LogLevel::Info, "Sending SIGTERM to child process..."));
                let d = Directive { logs, op: Operation::Terminate { pid } };
                assert(d@.logs =~= seq![
                    entry(LogLevel::Info, "Stopping process manager..."@),
                    entry(LogLevel::Info, "Sending SIGTERM to child process..."@),
                ]);
                d
            },
            None => {
                self.phase = SupervisorPhase::Halted;
                self.restarting = false;
                logs.push(LogRecord::from_text(LogLevel::Success, "Process manager stopped"));
                let d = Directive { logs, op: Operation::Finish(Ok(())) };
                assert(d@.logs =~= seq![
                    entry(LogLevel::Info, "Stopping process manager..."@),
                    entry(LogLevel::Success, "Process manager stopped"@),
                ]);
                d
            },
        }
    }
}

} // verus!
