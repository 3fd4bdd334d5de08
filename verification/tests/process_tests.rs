use fluxion_daemon::config::Config;
use fluxion_daemon::directive::{Directive, Operation, Outcome};
use fluxion_daemon::error::DaemonError;
use fluxion_daemon::logging::LogLevel;
use fluxion_daemon::process::ProcessManager;

fn messages(d: &Directive) -> Vec<(LogLevel, String)> {
    d.logs.iter().map(|r| (r.level, r.message.clone())).collect()
}

fn config(max: Option<u32>) -> Config {
    let mut c = Config::default();
    c.command = "node".to_string();
    c.args = vec!["app.js".to_string(), "--port".to_string(), "3000".to_string()];
    c.restart_delay = 2000;
    c.max_restarts = max;
    c.env = vec![("PORT".to_string(), "3000".to_string())];
    c
}

fn process_error(d: &Directive) -> String {
    match &d.op {
        Operation::Finish(Err(DaemonError::Process(m))) => m.clone(),
        _ => panic!("expected a process error"),
    }
}

#[test]
fn start_asks_to_spawn_the_configured_command() {
    let mut pm = ProcessManager::new(config(None));
    let d = pm.start();
    assert_eq!(
        messages(&d),
        vec![
            (LogLevel::Info, "Starting process manager...".to_string()),
            (LogLevel::Info, "Executing: node app.js --port 3000".to_string()),
        ]
    );
    match &d.op {
        Operation::Spawn { program, args, cwd, env } => {
            assert_eq!(program, "node");
            assert_eq!(args, &vec!["app.js", "--port", "3000"]);
            assert_eq!(cwd, ".");
            assert_eq!(env, &vec![("PORT".to_string(), "3000".to_string())]);
        }
        _ => panic!("expected a spawn"),
    }
    assert_eq!(pm.get_restart_count(), 0);
}

#[test]
fn command_without_arguments_keeps_trailing_space() {
    let mut c = config(None);
    c.args = vec![];
    let mut pm = ProcessManager::new(c);
    let d = pm.start();
    assert_eq!(d.logs[1].message, "Executing: node ");
}

#[test]
fn limit_zero_runs_once_without_restart() {
    let mut pm = ProcessManager::new(config(Some(0)));
    let d = pm.start();
    assert!(matches!(d.op, Operation::Spawn { .. }));
    pm.resume(Outcome::Spawned { pid: 10 });
    pm.resume(Outcome::Exited { success: true, code: Some(0) });
    let d = pm.resume(Outcome::Slept);
    let msg = "Maximum restart limit (0) reached. Stopping daemon.";
    assert_eq!(d.logs[0].level, LogLevel::Error);
    assert_eq!(d.logs[0].message, msg);
    assert_eq!(process_error(&d), msg);
    assert_eq!(pm.get_restart_count(), 1);
}

#[test]
fn children_are_restarted_until_the_limit() {
    let mut pm = ProcessManager::new(config(Some(2)));
    let d = pm.start();
    assert!(matches!(d.op, Operation::Spawn { .. }));

    let d = pm.resume(Outcome::Spawned { pid: 4242 });
    assert_eq!(messages(&d), vec![(LogLevel::Success, "Process started (PID: Some(4242), restart #1)".to_string())]);
    assert!(matches!(d.op, Operation::Wait));
    assert_eq!(pm.get_restart_count(), 1);

    let d = pm.resume(Outcome::Exited { success: true, code: Some(0) });
    assert_eq!(
        messages(&d),
        vec![
            (LogLevel::Success, "Process exited normally".to_string()),
            (LogLevel::Info, "Scheduling restart #2".to_string()),
        ]
    );
    assert!(matches!(d.op, Operation::Sleep { millis: 2000 }));

    let d = pm.resume(Outcome::Slept);
    assert!(matches!(d.op, Operation::Spawn { .. }));
    let d = pm.resume(Outcome::Spawned { pid: 4243 });
    assert_eq!(d.logs[0].message, "Process started (PID: Some(4243), restart #2)");

    let d = pm.resume(Outcome::Exited { success: false, code: Some(3) });
    assert_eq!(
        messages(&d),
        vec![
            (LogLevel::Warn, "Process exited with code 3".to_string()),
            (LogLevel::Info, "Scheduling restart #3".to_string()),
        ]
    );
    let d = pm.resume(Outcome::Slept);
    assert!(matches!(d.op, Operation::Spawn { .. }));
    let d = pm.resume(Outcome::Spawned { pid: 4244 });
    assert_eq!(d.logs[0].message, "Process started (PID: Some(4244), restart #3)");
    pm.resume(Outcome::Exited { success: true, code: Some(0) });
    let d = pm.resume(Outcome::Slept);
    assert_eq!(process_error(&d), "Maximum restart limit (2) reached. Stopping daemon.");
    assert_eq!(pm.get_restart_count(), 3);
}

#[test]
fn killed_child_reports_code_minus_one() {
    let mut pm = ProcessManager::new(config(None));
    pm.start();
    pm.resume(Outcome::Spawned { pid: 1 });
    let d = pm.resume(Outcome::Exited { success: false, code: None });
    assert_eq!(d.logs[0].message, "Process exited with code -1");
}

#[test]
fn spawn_failure_stops_with_the_command_line() {
    let mut pm = ProcessManager::new(config(None));
    pm.start();
    let d = pm.resume(Outcome::SpawnFailed { reason: "No such file or directory (os error 2)".to_string() });
    assert!(d.logs.is_empty());
    assert_eq!(
        process_error(&d),
        "Failed to spawn 'node app.js --port 3000': No such file or directory (os error 2)"
    );
}

#[test]
fn wait_failure_stops() {
    let mut pm = ProcessManager::new(config(None));
    pm.start();
    pm.resume(Outcome::Spawned { pid: 9 });
    let d = pm.resume(Outcome::WaitFailed { reason: "interrupted".to_string() });
    assert_eq!(process_error(&d), "Failed to wait for process: interrupted");
}

#[test]
fn stop_without_child_finishes_at_once() {
    let mut pm = ProcessManager::new(config(None));
    let d = pm.stop();
    assert_eq!(
        messages(&d),
        vec![
            (LogLevel::Info, "Stopping process manager...".to_string()),
            (LogLevel::Success, "Process manager stopped".to_string()),
        ]
    );
    assert!(matches!(d.op, Operation::Finish(Ok(()))));
}

#[test]
fn stop_terminates_gracefully_within_the_grace_period() {
    let mut pm = ProcessManager::new(config(None));
    pm.start();
    pm.resume(Outcome::Spawned { pid: 77 });
    let d = pm.stop();
    assert_eq!(d.logs[1].message, "Sending SIGTERM to child process...");
    assert!(matches!(d.op, Operation::Terminate { pid: 77 }));
    let d = pm.resume(Outcome::Terminated);
    assert!(matches!(d.op, Operation::CheckDeadline));
    let d = pm.resume(Outcome::Elapsed { millis: 0 });
    assert!(matches!(d.op, Operation::TryReap));
    let d = pm.resume(Outcome::Reaped { exited: false });
    assert!(matches!(d.op, Operation::Sleep { millis: 100 }));
    let d = pm.resume(Outcome::Slept);
    assert!(matches!(d.op, Operation::CheckDeadline));
    let d = pm.resume(Outcome::Elapsed { millis: 4999 });
    assert!(matches!(d.op, Operation::TryReap));
    let d = pm.resume(Outcome::Reaped { exited: true });
    assert_eq!(messages(&d), vec![(LogLevel::Success, "Child process terminated gracefully".to_string())]);
    assert!(matches!(d.op, Operation::Finish(Ok(()))));
}

#[test]
fn stop_kills_after_the_grace_period() {
    let mut pm = ProcessManager::new(config(None));
    pm.start();
    pm.resume(Outcome::Spawned { pid: 78 });
    pm.stop();
    pm.resume(Outcome::Terminated);
    let d = pm.resume(Outcome::Elapsed { millis: 5000 });
    assert_eq!(messages(&d), vec![(LogLevel::Warn, "Force killing child process...".to_string())]);
    assert!(matches!(d.op, Operation::ForceKill));
    let d = pm.resume(Outcome::Killed);
    assert_eq!(messages(&d), vec![(LogLevel::Success, "Process manager stopped".to_string())]);
    assert!(matches!(d.op, Operation::Finish(Ok(()))));
}

#[test]
fn restart_replaces_a_running_child() {
    let mut pm = ProcessManager::new(config(None));
    pm.start();
    pm.resume(Outcome::Spawned { pid: 90 });
    let d = pm.restart();
    assert_eq!(
        messages(&d),
        vec![
            (LogLevel::Info, "Restarting child process...".to_string()),
            (LogLevel::Info, "Sending SIGTERM to child process...".to_string()),
        ]
    );
    assert!(matches!(d.op, Operation::Terminate { pid: 90 }));
    pm.resume(Outcome::Terminated);
    pm.resume(Outcome::Elapsed { millis: 10 });
    let d = pm.resume(Outcome::Reaped { exited: true });
    assert_eq!(d.logs[0].message, "Child process terminated gracefully");
    assert_eq!(d.logs[1].message, "Executing: node app.js --port 3000");
    assert!(matches!(d.op, Operation::Spawn { .. }));
    let d = pm.resume(Outcome::Spawned { pid: 91 });
    assert_eq!(d.logs[0].message, "Process started (PID: Some(91), restart #2)");
    assert_eq!(pm.get_restart_count(), 2);
}

#[test]
fn restart_kills_a_stubborn_child_and_starts_again() {
    let mut pm = ProcessManager::new(config(None));
    pm.start();
    pm.resume(Outcome::Spawned { pid: 92 });
    pm.restart();
    pm.resume(Outcome::Terminated);
    assert!(matches!(pm.resume(Outcome::Elapsed { millis: 6000 }).op, Operation::ForceKill));
    let d = pm.resume(Outcome::Killed);
    assert_eq!(d.logs[0].message, "Executing: node app.js --port 3000");
    assert!(matches!(d.op, Operation::Spawn { .. }));
}

#[test]
fn restart_while_resting_starts_at_once() {
    let mut pm = ProcessManager::new(config(None));
    pm.start();
    pm.resume(Outcome::Spawned { pid: 93 });
    pm.resume(Outcome::Exited { success: true, code: Some(0) });
    let d = pm.restart();
    assert_eq!(d.logs[0].message, "Restarting child process...");
    assert!(matches!(d.op, Operation::Spawn { .. }));
}

#[test]
fn accepts_only_awaited_outcomes() {
    let mut pm = ProcessManager::new(config(None));
    pm.start();
    assert!(pm.accepts(&Outcome::Spawned { pid: 1 }));
    assert!(!pm.accepts(&Outcome::Slept));
}
