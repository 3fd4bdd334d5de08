//! Turning the process into a daemon, then handing over to the supervisor.
use vstd::prelude::*;
use vstd::string::StringExecFns;
use crate::config::{Config, ConfigView};
use crate::directive::{Directive, DirectiveView, Operation, OperationView, Outcome, directive, fail_with};
use crate::error::{DaemonError, ErrorView};
use crate::logging::{LogEntry, LogLevel, LogRecord, entry};
use crate::process::{
    ManagerView,
    ProcessManager,
    SupervisorPhase,
    awaits,
    counter_room,
    manager_restart,
    manager_resume,
    manager_start,
    manager_stop,
};
use crate::text::{decimal, push_decimal};

verus! {

/// Where the daemon stands between two operations.
#[derive(Clone, Copy, Debug, PartialEq, Eq, Structural)]
pub enum DaemonStage {
    /// Not started.
    Idle,
    /// The first fork was asked for.
    FirstFork,
    /// A new session was asked for.
    NewSession,
    /// The second fork was asked for.
    SecondFork,
    /// Leaving the old directory, mask and descriptors was asked for.
    Detaching,
    /// Redirecting the standard streams was asked for.
    Redirecting,
    /// Writing the process id file was asked for.
    WritingPid,
    /// The supervisor is in charge.
    Supervising,
    /// Finished: nothing more is awaited.
    Halted,
}

/// The daemon: its configuration and, once daemonized, its supervisor.
pub struct Daemon {
    config: Config,
    process_manager: Option<ProcessManager>,
    stage: DaemonStage,
}

/// The daemon's state taken by characters.
pub struct DaemonView {
    pub config: ConfigView,
    pub manager: Option<ManagerView>,
    pub stage: DaemonStage,
}

impl View for Daemon {
    type V = DaemonView;

    closed spec fn view(&self) -> DaemonView {
        DaemonView {
            config: self.config@,
            manager: match self.process_manager {
                Some(m) => Some(m@),
                None => None,
            },
            stage: self.stage,
        }
    }
}

/// How `Debug` writes a path given as text (`{:?}` of `std::path::Path`):
/// quoted and escaped.
pub uninterp spec fn path_debug_text(path: Seq<char>) -> Seq<char>;

/// `format!("{:?}", Path::new(path))`.
#[verifier::external_body]
fn path_debug(path: &str) -> (r: String)
    ensures
        r@ == path_debug_text(path@),
{
    format!("{:?}", std::path::Path::new(path))
}

/// Whether a descriptor is closed when the daemon detaches: every one but
/// standard input, output and error.
pub open spec fn is_closed_on_detach(fd: i32) -> bool {
    fd != 0 && fd != 1 && fd != 2
}

/// Whether the descriptor `fd` is to be closed when the daemon detaches.
pub fn closes_descriptor(fd: i32) -> (r: bool)
    ensures
        r == is_closed_on_detach(fd),
{
    fd != 0 && fd != 1 && fd != 2
}

/// The log records that open a start: a banner, the working directory and
/// the log file.
pub open spec fn banner(c: ConfigView) -> Seq<LogEntry> {
    seq![
        entry(LogLevel::Info, "=== Fluxion Daemon Starting ==="@),
        entry(LogLevel::Info, "Working directory: "@ + path_debug_text(c.cwd)),
        entry(LogLevel::Info, "Log file: "@ + path_debug_text(c.log_file)),
    ]
}

/// Where the daemon's standard input comes from.
pub open spec fn stdin_path() -> Seq<char> {
    "/dev/null"@
}

/// Where the daemon's standard output goes.
pub open spec fn stdout_path() -> Seq<char> {
    "/tmp/fluxion-daemon.out"@
}

/// Where the daemon's standard error goes.
pub open spec fn stderr_path() -> Seq<char> {
    "/tmp/fluxion-daemon.err"@
}

/// The file that holds the daemon's process id.
pub open spec fn pid_file_path() -> Seq<char> {
    "/tmp/fluxion-daemon.pid"@
}

/// The contents of the process id file: the id in decimal and a newline.
pub open spec fn pid_file_text(pid: u32) -> Seq<char> {
    decimal(pid as nat) + "\n"@
}

/// The warning given when the process id file could not be written.
pub open spec fn pid_file_warning() -> Seq<char> {
    "Failed to write PID file /tmp/fluxion-daemon.pid"@
}

/// The contents to write to the process id file for process `pid`.
pub fn pid_file_contents(pid: u32) -> (r: String)
    ensures
        r@ == pid_file_text(pid),
{
    let mut r = String::new();
    push_decimal(&mut r, pid as u64);
    r.append("\n");
    assert(r@ =~= pid_file_text(pid));
    r
}

/// The directive that records the process id, after `pre`.
pub open spec fn write_pid(s: DaemonView, pre: Seq<LogEntry>) -> (DaemonView, DirectiveView) {
    (
        DaemonView { stage: DaemonStage::WritingPid, ..s },
        directive(pre, OperationView::WritePidFile { path: pid_file_path() }),
    )
}

/// The warning given where the platform cannot fork.
pub open spec fn unsupported_message() -> Seq<char> {
    "Daemonization not supported on this platform, running as regular process"@
}

/// A fresh supervisor for the configuration `c`.
pub open spec fn fresh_manager(c: ConfigView) -> ManagerView {
    ManagerView {
        config: c,
        child_pid: None,
        restart_count: 0,
        phase: SupervisorPhase::Idle,
        restarting: false,
    }
}

/// Daemonized: after `pre`, report success and start a fresh supervisor,
/// whose first directive follows.
pub open spec fn begin_supervising(s: DaemonView, pre: Seq<LogEntry>) -> (DaemonView, DirectiveView) {
    let (m, d) = manager_start(fresh_manager(s.config));
    (
        DaemonView { manager: Some(m), stage: DaemonStage::Supervising, ..s },
        directive(pre + seq![entry(LogLevel::Success, "Successfully daemonized"@)] + d.logs, d.op),
    )
}

/// Starting the daemon: the banner, then the first fork.
pub open spec fn daemon_start(s: DaemonView) -> (DaemonView, DirectiveView) {
    (DaemonView { stage: DaemonStage::FirstFork, ..s }, directive(banner(s.config), OperationView::Fork))
}

/// Which outcomes the daemon awaits in each stage.
pub open spec fn daemon_awaits(s: DaemonView, o: Outcome) -> bool {
    match s.stage {
        DaemonStage::FirstFork => o is Forked || o is ForkUnsupported,
        DaemonStage::NewSession => o is SessionCreated,
        DaemonStage::SecondFork => o is Forked,
        DaemonStage::Detaching => o is Detached,
        DaemonStage::Redirecting => o is Redirected,
        DaemonStage::WritingPid => o is PidFileWritten,
        DaemonStage::Supervising => s.manager matches Some(m) && awaits(m.phase, o) && counter_room(
            m,
            o,
        ),
        _ => false,
    }
}

/// Stopping with a daemonization error.
pub open spec fn daemon_failure(s: DaemonView, msg: Seq<char>) -> (DaemonView, DirectiveView) {
    (DaemonView { stage: DaemonStage::Halted, ..s }, fail_with(seq![], ErrorView::Daemon(msg)))
}

/// The parent's side of a fork: it ends.
pub open spec fn parent_exits(s: DaemonView) -> (DaemonView, DirectiveView) {
    (DaemonView { stage: DaemonStage::Halted, ..s }, directive(seq![], OperationView::ExitParent))
}

/// The daemon's answer to the outcome of the operation it asked for.
pub open spec fn daemon_resume(s: DaemonView, o: Outcome) -> (DaemonView, DirectiveView) {
    match (s.stage, o) {
        (DaemonStage::FirstFork, Outcome::Forked { result }) => {
            if result == -1 {
                daemon_failure(s, "First fork failed"@)
            } else if result == 0 {
                (
                    DaemonView { stage: DaemonStage::NewSession, ..s },
                    directive(seq![], OperationView::NewSession),
                )
            } else {
                parent_exits(s)
            }
        },
        (DaemonStage::FirstFork, Outcome::ForkUnsupported) => write_pid(
            s,
            seq![entry(LogLevel::Warn, unsupported_message())],
        ),
        (DaemonStage::NewSession, Outcome::SessionCreated { result }) => {
            if result == -1 {
                daemon_failure(s, "setsid failed"@)
            } else {
                (
                    DaemonView { stage: DaemonStage::SecondFork, ..s },
                    directive(seq![], OperationView::Fork),
                )
            }
        },
        (DaemonStage::SecondFork, Outcome::Forked { result }) => {
            if result == -1 {
                daemon_failure(s, "Second fork failed"@)
            } else if result == 0 {
                (
                    DaemonView { stage: DaemonStage::Detaching, ..s },
                    directive(seq![], OperationView::Detach { cwd: s.config.cwd }),
                )
            } else {
                parent_exits(s)
            }
        },
        (DaemonStage::Detaching, Outcome::Detached) => (
            DaemonView { stage: DaemonStage::Redirecting, ..s },
            directive(
                seq![],
                OperationView::RedirectStdio {
                    stdin: stdin_path(),
                    stdout: stdout_path(),
                    stderr: stderr_path(),
                },
            ),
        ),
        (DaemonStage::Redirecting, Outcome::Redirected(r)) => match r {
            Ok(()) => write_pid(s, seq![]),
            Err(e) => (
                DaemonView { stage: DaemonStage::Halted, ..s },
                fail_with(seq![], ErrorView::Io(e)),
            ),
        },
        (DaemonStage::WritingPid, Outcome::PidFileWritten { ok }) => {
            if ok {
                begin_supervising(s, seq![])
            } else {
                begin_supervising(s, seq![entry(LogLevel::Warn, pid_file_warning())])
            }
        },
        (DaemonStage::Supervising, _) => {
            let (m, d) = manager_resume(s.manager->0, o);
            (DaemonView { manager: Some(m), ..s }, d)
        },
        _ => (s, directive(seq![], OperationView::Finish(Ok(())))),
    }
}

/// Whether the supervisor is in charge, so that it can be stopped or
/// restarted.
pub open spec fn is_supervising(s: DaemonView) -> bool {
    s.stage == DaemonStage::Supervising && s.manager is Some
}

/// Stopping the daemon (on `SIGINT` or `SIGTERM`): the supervisor's stop.
pub open spec fn daemon_stop(s: DaemonView) -> (DaemonView, DirectiveView) {
    let (m, d) = manager_stop(s.manager->0);
    (DaemonView { manager: Some(m), ..s }, d)
}

/// Restarting the child (on `SIGHUP`): the supervisor's restart.
pub open spec fn daemon_restart(s: DaemonView) -> (DaemonView, DirectiveView) {
    let (m, d) = manager_restart(s.manager->0);
    (DaemonView { manager: Some(m), ..s }, d)
}



impl Daemon {
    /// A daemon for the given configuration, not yet started.
    pub fn new(config: Config) -> (r: Daemon)
        ensures
            r@ == (DaemonView { config: config@, manager: None, stage: DaemonStage::Idle }),
    {
        Daemon { config, process_manager: None, stage: DaemonStage::Idle }
    }

    /// Starts the daemon: logs the banner and asks for the first fork.
    pub fn start(&mut self) -> (d: Directive)
        ensures
            (final(self)@, d@) == daemon_start(old(self)@),
    {
        let mut logs: Vec<LogRecord> = Vec::new();
        logs.push(LogRecord::from_text(LogLevel::Info, "=== Fluxion Daemon Starting ==="));
        let mut msg = String::from_str("Working directory: ");
        msg.append(path_debug(self.config.cwd.as_str()).as_str());
        logs.push(LogRecord::new(LogLevel::Info, msg));
        let mut msg = String::from_str("Log file: ");
        msg.append(path_debug(self.config.log_file.as_str()).as_str());
        logs.push(LogRecord::new(LogLevel::Info, msg));
        self.stage = DaemonStage::FirstFork;
        let d = Directive { logs, op: Operation::Fork };
        assert(d@.logs =~= banner(self.config@));
        d
    }

    fn begin_supervising(&mut self, mut pre: Vec<LogRecord>) -> (d: Directive)
        ensures
            (final(self)@, d@) == begin_supervising(
                old(self)@,
                pre@.map_values(|r: LogRecord| r@),
            ),
    {
        let ghost pre_view = pre@.map_values(|r: LogRecord| r@);
        let mut manager = ProcessManager::new(self.config.duplicate());
        let first = manager.start();
        pre.push(LogRecord::from_text(LogLevel::Success, "Successfully daemonized"));
        let ghost mid = pre@;
        let mut rest = first.logs;
        let ghost rest_view = rest@;
        pre.append(&mut rest);
        self.process_manager = Some(manager);
        self.stage = DaemonStage::Supervising;
        let d = Directive { logs: pre, op: first.op };
        assert(d@.logs =~= pre_view + seq![entry(LogLevel::Success, "Successfully daemonized"@)]
            + rest_view.map_values(|r: LogRecord| r@));
        d
    }

    /// Whether `outcome` is one that the daemon awaits now, so that `resume`
    /// may be given it.
    pub fn accepts(&self, outcome: &Outcome) -> (r: bool)
        ensures
            r == daemon_awaits(self@, *outcome),
    {
        match self.stage {
            DaemonStage::FirstFork => matches!(outcome, Outcome::Forked { .. } | Outcome::ForkUnsupported),
            DaemonStage::NewSession => matches!(outcome, Outcome::SessionCreated { .. }),
            DaemonStage::SecondFork => matches!(outcome, Outcome::Forked { .. }),
            DaemonStage::Detaching => matches!(outcome, Outcome::Detached),
            DaemonStage::Redirecting => matches!(outcome, Outcome::Redirected(_)),
            DaemonStage::WritingPid => matches!(outcome, Outcome::PidFileWritten { .. }),
            DaemonStage::Supervising => match &self.process_manager {
                Some(m) => m.accepts(outcome),
                None => false,
            },
            _ => false,
        }
    }

    /// Whether the supervisor is in charge, so that `stop` and `restart` may
    /// be called.
    pub fn is_supervising(&self) -> (r: bool)
        ensures
            r == is_supervising(self@),
    {
        self.stage == DaemonStage::Supervising && self.process_manager.is_some()
    }

    /// Stops the daemon gracefully: the supervisor stops its child, which is
    /// asked to terminate and killed after the grace period.
    pub fn stop(&mut self) -> (d: Directive)
        requires
            is_supervising(old(self)@),
        ensures
            (final(self)@, d@) == daemon_stop(old(self)@),
    {
        let mut manager = self.process_manager.take().unwrap();
        let d = manager.stop();
        self.process_manager = Some(manager);
        d
    }

    /// Restarts the child gracefully: the supervisor stops it and starts it
    /// again.
    pub fn restart(&mut self) -> (d: Directive)
        requires
            is_supervising(old(self)@),
        ensures
            (final(self)@, d@) == daemon_restart(old(self)@),
    {
        let mut manager = self.process_manager.take().unwrap();
        let d = manager.restart();
        self.process_manager = Some(manager);
        d
    }

    /// Takes the outcome of the operation last asked for and gives the next
    /// operation.
    pub fn resume(&mut self, outcome: Outcome) -> (d: Directive)
        requires
            daemon_awaits(old(self)@, outcome),
        ensures
            (final(self)@, d@) == daemon_resume(old(self)@, outcome),
    {
        let logs: Vec<LogRecord> = Vec::new();
        match self.stage {
            DaemonStage::FirstFork | DaemonStage::SecondFork => {
                let first = self.stage == DaemonStage::FirstFork;
                match outcome {
                    Outcome::Forked { result } => {
                        if result == -1 {
                            self.stage = DaemonStage::Halted;
                            let msg = if first {
                                String::from_str("First fork failed")
                            } else {
                                String::from_str("Second fork failed")
                            };
                            let d = Directive { logs, op: Operation::Finish(Err(DaemonError::Daemon(msg))) };
                            assert(d@.logs =~= Seq::<LogEntry>::empty());
                            d
                        } else if result == 0 {
                            let op = if first {
                                self.stage = DaemonStage::NewSession;
                                Operation::NewSession
                            } else {
                                self.stage = DaemonStage::Detaching;
                                Operation::Detach { cwd: self.config.cwd.clone() }
                            };
                            let d = Directive { logs, op };
                            assert(d@.logs =~= Seq::<LogEntry>::empty());
                            d
                        } else {
                            self.stage = DaemonStage::Halted;
                            let d = Directive { logs, op: Operation::ExitParent };
                            assert(d@.logs =~= Seq::<LogEntry>::empty());
                            d
                        }
                    },
                    _ => {
                        let mut pre: Vec<LogRecord> = Vec::new();
                        pre.push(LogRecord::from_text(LogLevel::Warn, "Daemonization not supported on this platform, running as regular process"));
                        self.stage = DaemonStage::WritingPid;
                        let d = Directive { logs: pre, op: Operation::WritePidFile { path: String::from_str("/tmp/fluxion-daemon.pid") } };
                        assert(d@.logs =~= seq![entry(LogLevel::Warn, unsupported_message())]);
                        d
                    },
                }
            },
            DaemonStage::NewSession => {
                let result = match outcome {
                    Outcome::SessionCreated { result } => result,
                    _ => 0,
                };
                if result == -1 {
                    self.stage = DaemonStage::Halted;
                    let d = Directive {
                        logs,
                        op: Operation::Finish(Err(DaemonError::Daemon(String::from_str("setsid failed")))),
                    };
                    assert(d@.logs =~= Seq::<LogEntry>::empty());
                    d
                } else {
                    self.stage = DaemonStage::SecondFork;
                    let d = Directive { logs, op: Operation::Fork };
                    assert(d@.logs =~= Seq::<LogEntry>::empty());
                    d
                }
            },
            DaemonStage::Detaching => {
                self.stage = DaemonStage::Redirecting;
                let op = Operation::RedirectStdio {
                    stdin: String::from_str("/dev/null"),
                    stdout: String::from_str("/tmp/fluxion-daemon.out"),
                    stderr: String::from_str("/tmp/fluxion-daemon.err"),
                };
                let d = Directive { logs, op };
                assert(d@.logs =~= Seq::<LogEntry>::empty());
                d
            },
            DaemonStage::Redirecting => {
                match outcome {
                    Outcome::Redirected(Err(e)) => {
                        self.stage = DaemonStage::Halted;
                        let d = Directive { logs, op: Operation::Finish(Err(DaemonError::Io(e))) };
                        assert(d@.logs =~= Seq::<LogEntry>::empty());
                        d
                    },
                    _ => {
                        self.stage = DaemonStage::WritingPid;
                        let d = Directive { logs, op: Operation::WritePidFile { path: String::from_str("/tmp/fluxion-daemon.pid") } };
                        assert(d@.logs =~= Seq::<LogEntry>::empty());
                        d
                    },
                }
            },
            DaemonStage::WritingPid => {
                let ok = match outcome {
                    Outcome::PidFileWritten { ok } => ok,
                    _ => true,
                };
                let mut pre: Vec<LogRecord> = Vec::new();
                if !ok {
                    pre.push(LogRecord::from_text(LogLevel::Warn, "Failed to write PID file /tmp/fluxion-daemon.pid"));
                }
                let ghost pv = pre@.map_values(|r: LogRecord| r@);
                assert(ok ==> pv =~= Seq::<LogEntry>::empty());
                assert(!ok ==> pv =~= seq![entry(LogLevel::Warn, pid_file_warning())]);
                self.begin_supervising(pre)
            },
            _ => {
                let mut manager = self.process_manager.take().unwrap();
                let d = manager.resume(outcome);
                self.process_manager = Some(manager);
                d
            },
        }
    }
}

} // verus!
