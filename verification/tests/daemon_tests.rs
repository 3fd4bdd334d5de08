use fluxion_daemon::config::Config;
use fluxion_daemon::daemon::{closes_descriptor, pid_file_contents, Daemon};
use fluxion_daemon::directive::{Operation, Outcome};
use fluxion_daemon::error::DaemonError;
use fluxion_daemon::logging::LogLevel;

fn config() -> Config {
    let mut c = Config::default();
    c.cwd = "/srv/app".to_string();
    c.max_restarts = Some(1);
    c
}

fn daemon_error(op: &Operation) -> String {
    match op {
        Operation::Finish(Err(DaemonError::Daemon(m))) => m.clone(),
        _ => panic!("expected a daemon error"),
    }
}

#[test]
fn start_logs_the_banner_and_forks() {
    let mut d = Daemon::new(config());
    let s = d.start();
    let msgs: Vec<String> = s.logs.iter().map(|r| r.message.clone()).collect();
    assert_eq!(
        msgs,
        vec![
            "=== Fluxion Daemon Starting ===".to_string(),
            "Working directory: \"/srv/app\"".to_string(),
            "Log file: \"daemon.log\"".to_string(),
        ]
    );
    assert!(matches!(s.op, Operation::Fork));
}

#[test]
fn full_daemonization_hands_over_to_the_supervisor() {
    let mut d = Daemon::new(config());
    d.start();
    assert!(matches!(d.resume(Outcome::Forked { result: 0 }).op, Operation::NewSession));
    assert!(matches!(d.resume(Outcome::SessionCreated { result: 31 }).op, Operation::Fork));
    match d.resume(Outcome::Forked { result: 0 }).op {
        Operation::Detach { cwd } => assert_eq!(cwd, "/srv/app"),
        _ => panic!("expected to detach"),
    }
    match d.resume(Outcome::Detached).op {
        Operation::RedirectStdio { stdin, stdout, stderr } => {
            assert_eq!(stdin, "/dev/null");
            assert_eq!(stdout, "/tmp/fluxion-daemon.out");
            assert_eq!(stderr, "/tmp/fluxion-daemon.err");
        }
        _ => panic!("expected to redirect"),
    }
    match d.resume(Outcome::Redirected(Ok(()))).op {
        Operation::WritePidFile { path } => assert_eq!(path, "/tmp/fluxion-daemon.pid"),
        _ => panic!("expected to write the PID file"),
    }
    let s = d.resume(Outcome::PidFileWritten { ok: true });
    assert_eq!(s.logs[0].level, LogLevel::Success);
    assert_eq!(s.logs[0].message, "Successfully daemonized");
    assert_eq!(s.logs[1].message, "Starting process manager...");
    assert_eq!(s.logs[2].message, "Executing: tsx main.ts");
    assert!(matches!(s.op, Operation::Spawn { .. }));
    assert!(matches!(d.resume(Outcome::Spawned { pid: 5 }).op, Operation::Wait));
    assert!(matches!(d.resume(Outcome::Exited { success: true, code: Some(0) }).op, Operation::Sleep { millis: 1000 }));
    assert!(matches!(d.resume(Outcome::Slept).op, Operation::Spawn { .. }));
    assert!(matches!(d.resume(Outcome::Spawned { pid: 6 }).op, Operation::Wait));
    d.resume(Outcome::Exited { success: false, code: Some(1) });
    match d.resume(Outcome::Slept).op {
        Operation::Finish(Err(DaemonError::Process(m))) => {
            assert_eq!(m, "Maximum restart limit (1) reached. Stopping daemon.")
        }
        _ => panic!("expected the restart limit"),
    }
}

#[test]
fn parents_exit_after_each_fork() {
    let mut d = Daemon::new(config());
    d.start();
    assert!(matches!(d.resume(Outcome::Forked { result: 1234 }).op, Operation::ExitParent));
    let mut d = Daemon::new(config());
    d.start();
    d.resume(Outcome::Forked { result: 0 });
    d.resume(Outcome::SessionCreated { result: 1 });
    assert!(matches!(d.resume(Outcome::Forked { result: 99 }).op, Operation::ExitParent));
}

#[test]
fn daemonization_failures_are_reported() {
    let mut d = Daemon::new(config());
    d.start();
    assert_eq!(daemon_error(&d.resume(Outcome::Forked { result: -1 }).op), "First fork failed");

    let mut d = Daemon::new(config());
    d.start();
    d.resume(Outcome::Forked { result: 0 });
    assert_eq!(daemon_error(&d.resume(Outcome::SessionCreated { result: -1 }).op), "setsid failed");

    let mut d = Daemon::new(config());
    d.start();
    d.resume(Outcome::Forked { result: 0 });
    d.resume(Outcome::SessionCreated { result: 1 });
    assert_eq!(daemon_error(&d.resume(Outcome::Forked { result: -1 }).op), "Second fork failed");
}

#[test]
fn failing_to_open_dev_null_is_an_io_error() {
    let mut d = Daemon::new(config());
    d.start();
    d.resume(Outcome::Forked { result: 0 });
    d.resume(Outcome::SessionCreated { result: 1 });
    d.resume(Outcome::Forked { result: 0 });
    d.resume(Outcome::Detached);
    let err = std::io::Error::new(std::io::ErrorKind::PermissionDenied, "denied");
    match d.resume(Outcome::Redirected(Err(err))).op {
        Operation::Finish(Err(e @ DaemonError::Io(_))) => assert_eq!(e.message(), "IO error: denied"),
        _ => panic!("expected an IO error"),
    }
}

#[test]
fn unsupported_platform_runs_in_the_foreground() {
    let mut d = Daemon::new(config());
    d.start();
    let s = d.resume(Outcome::ForkUnsupported);
    assert_eq!(s.logs[0].level, LogLevel::Warn);
    assert_eq!(
        s.logs[0].message,
        "Daemonization not supported on this platform, running as regular process"
    );
    assert!(matches!(s.op, Operation::WritePidFile { .. }));
    let s = d.resume(Outcome::PidFileWritten { ok: false });
    assert_eq!(s.logs[0].level, LogLevel::Warn);
    assert_eq!(s.logs[0].message, "Failed to write PID file /tmp/fluxion-daemon.pid");
    assert_eq!(s.logs[1].message, "Successfully daemonized");
    assert!(matches!(s.op, Operation::Spawn { .. }));
}

#[test]
fn standard_descriptors_stay_open() {
    assert!(!closes_descriptor(0));
    assert!(!closes_descriptor(1));
    assert!(!closes_descriptor(2));
    assert!(closes_descriptor(3));
    assert!(closes_descriptor(1023));
}

fn supervising_daemon() -> Daemon {
    let mut d = Daemon::new(config());
    d.start();
    d.resume(Outcome::Forked { result: 0 });
    d.resume(Outcome::SessionCreated { result: 1 });
    d.resume(Outcome::Forked { result: 0 });
    d.resume(Outcome::Detached);
    d.resume(Outcome::Redirected(Ok(())));
    assert!(!d.is_supervising());
    d.resume(Outcome::PidFileWritten { ok: true });
    assert!(d.is_supervising());
    d
}

#[test]
fn signal_stop_terminates_the_child_gracefully() {
    let mut d = supervising_daemon();
    d.resume(Outcome::Spawned { pid: 300 });
    let s = d.stop();
    assert_eq!(s.logs[0].message, "Stopping process manager...");
    assert!(matches!(s.op, Operation::Terminate { pid: 300 }));
    assert!(matches!(d.resume(Outcome::Terminated).op, Operation::CheckDeadline));
    assert!(matches!(d.resume(Outcome::Elapsed { millis: 1 }).op, Operation::TryReap));
    assert!(matches!(d.resume(Outcome::Reaped { exited: true }).op, Operation::Finish(Ok(()))));
}

#[test]
fn signal_restart_keeps_the_daemon_running() {
    let mut d = supervising_daemon();
    d.resume(Outcome::Spawned { pid: 301 });
    let s = d.restart();
    assert!(matches!(s.op, Operation::Terminate { pid: 301 }));
    d.resume(Outcome::Terminated);
    d.resume(Outcome::Elapsed { millis: 1 });
    assert!(matches!(d.resume(Outcome::Reaped { exited: true }).op, Operation::Spawn { .. }));
}

#[test]
fn pid_file_holds_the_decimal_id() {
    assert_eq!(pid_file_contents(4321), "4321\n");
}
