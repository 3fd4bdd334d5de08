use fluxion_daemon::config::Config;
use fluxion_daemon::error::DaemonError;

#[test]
fn default_config_values() {
    let c = Config::default();
    assert_eq!(c.command, "tsx");
    assert_eq!(c.args, vec!["main.ts".to_string()]);
    assert_eq!(c.cwd, ".");
    assert_eq!(c.restart_delay, 1000);
    assert_eq!(c.max_restarts, None);
    assert!(c.enable_logging);
    assert_eq!(c.log_file, "daemon.log");
    assert!(c.env.is_empty());
}

#[test]
fn validate_accepts_non_empty_command() {
    assert!(Config::default().validate().is_ok());
}

#[test]
fn validate_rejects_empty_command() {
    let mut c = Config::default();
    c.command = String::new();
    match c.validate() {
        Err(DaemonError::Config(m)) => assert_eq!(m, "Command cannot be empty"),
        _ => panic!("expected a configuration error"),
    }
}

#[test]
fn duplicate_copies_every_field() {
    let mut c = Config::default();
    c.env = vec![("NODE_ENV".to_string(), "production".to_string())];
    c.max_restarts = Some(3);
    let d = c.duplicate();
    assert_eq!(d.command, c.command);
    assert_eq!(d.args, c.args);
    assert_eq!(d.cwd, c.cwd);
    assert_eq!(d.env, c.env);
    assert_eq!(d.max_restarts, Some(3));
    assert_eq!(d.restart_delay, c.restart_delay);
}
