use fluxion_daemon::cli::{continue_args, parse_args, CliRequest};
use fluxion_daemon::config::Config;
use fluxion_daemon::error::DaemonError;

fn argv(list: &[&str]) -> Vec<String> {
    let mut v = vec!["fluxion-daemon".to_string()];
    v.extend(list.iter().map(|s| s.to_string()));
    v
}

fn started(list: &[&str]) -> Config {
    match parse_args(&argv(list)) {
        Ok(CliRequest::Start(c)) => c,
        Ok(CliRequest::ShowHelp) => panic!("unexpected help"),
        Ok(CliRequest::LoadConfig(_)) => panic!("unexpected config file"),
        Err(e) => panic!("unexpected error {}", e.message()),
    }
}

fn config_error(list: &[&str]) -> String {
    match parse_args(&argv(list)) {
        Err(DaemonError::Config(m)) => m,
        _ => panic!("expected a configuration error"),
    }
}

#[test]
fn no_options_give_the_default_configuration() {
    let c = started(&[]);
    assert_eq!(c.command, "tsx");
    assert_eq!(c.args, vec!["main.ts".to_string()]);
    assert_eq!(c.restart_delay, 1000);
    assert_eq!(c.max_restarts, None);
    assert_eq!(c.log_file, "daemon.log");
}

#[test]
fn empty_argv_gives_the_default_configuration() {
    match parse_args(&vec![]) {
        Ok(CliRequest::Start(c)) => assert_eq!(c.command, "tsx"),
        _ => panic!("expected a start"),
    }
}

#[test]
fn command_and_args_options() {
    let c = started(&["--command", "node", "--args", "app.js  --port 3000"]);
    assert_eq!(c.command, "node");
    assert_eq!(c.args, vec!["app.js", "--port", "3000"]);
    let c = started(&["-C", "deno", "-a", "run main.ts"]);
    assert_eq!(c.command, "deno");
    assert_eq!(c.args, vec!["run", "main.ts"]);
}

#[test]
fn delay_and_max_restarts_options() {
    let c = started(&["--delay", "2000", "--max-restarts", "10"]);
    assert_eq!(c.restart_delay, 2000);
    assert_eq!(c.max_restarts, Some(10));
    let c = started(&["-d", "+5", "-m", "0"]);
    assert_eq!(c.restart_delay, 5);
    assert_eq!(c.max_restarts, Some(0));
}

#[test]
fn cwd_and_log_file_options() {
    let c = started(&["-w", "/path/to/project", "-l", "out.log"]);
    assert_eq!(c.cwd, "/path/to/project");
    assert_eq!(c.log_file, "out.log");
    let c = started(&["--cwd", "/srv", "--log-file", "/var/log/d.log"]);
    assert_eq!(c.cwd, "/srv");
    assert_eq!(c.log_file, "/var/log/d.log");
}

#[test]
fn later_option_overrides_earlier() {
    let c = started(&["-d", "1", "-d", "2", "-C", "a", "--command", "b"]);
    assert_eq!(c.restart_delay, 2);
    assert_eq!(c.command, "b");
}

#[test]
fn help_wins_at_its_position() {
    assert!(matches!(parse_args(&argv(&["-h"])), Ok(CliRequest::ShowHelp)));
    assert!(matches!(parse_args(&argv(&["-d", "5", "--help", "--bogus"])), Ok(CliRequest::ShowHelp)));
    assert_eq!(config_error(&["--bogus", "-h"]), "Unknown argument: --bogus");
}

#[test]
fn missing_values_are_errors() {
    assert_eq!(config_error(&["-C"]), "Missing command");
    assert_eq!(config_error(&["--args"]), "Missing arguments");
    assert_eq!(config_error(&["-w"]), "Missing working directory");
    assert_eq!(config_error(&["--delay"]), "Missing restart delay");
    assert_eq!(config_error(&["-m"]), "Missing max restarts");
    assert_eq!(config_error(&["--log-file"]), "Missing log file path");
}

#[test]
fn invalid_numbers_are_errors() {
    assert_eq!(config_error(&["-d", "soon"]), "Invalid restart delay");
    assert_eq!(config_error(&["-d", "-1"]), "Invalid restart delay");
    assert_eq!(config_error(&["-m", "4294967296"]), "Invalid max restarts");
    assert_eq!(config_error(&["--max-restarts", ""]), "Invalid max restarts");
}

#[test]
fn unknown_arguments_are_errors() {
    assert_eq!(config_error(&["main.ts"]), "Unknown argument: main.ts");
}

#[test]
fn default_cwd_is_replaced_by_current_dir() {
    let mut c = Config::default();
    assert!(c.uses_default_cwd());
    c.resolve_cwd(Some("/home/me/project".to_string()));
    assert_eq!(c.cwd, "/home/me/project");

    let mut c = Config::default();
    c.cwd = "./".to_string();
    assert!(c.uses_default_cwd());
    c.resolve_cwd(None);
    assert_eq!(c.cwd, ".");
}

#[test]
fn explicit_cwd_is_kept() {
    let mut c = Config::default();
    c.cwd = "/srv/app".to_string();
    assert!(!c.uses_default_cwd());
    c.resolve_cwd(Some("/elsewhere".to_string()));
    assert_eq!(c.cwd, "/srv/app");
}

const README_CONFIG: &str = r#"{
  "command": "tsx",
  "args": ["main.ts"],
  "cwd": "./",
  "restart_delay": 1000,
  "max_restarts": null,
  "enable_logging": true,
  "log_file": "daemon.log",
  "env": [
    ["NODE_ENV", "production"],
    ["PORT", "3000"]
  ]
}"#;

fn with_file(list: &[&str], contents: Result<String, std::io::Error>) -> Result<CliRequest, DaemonError> {
    let args = argv(list);
    match parse_args(&args) {
        Ok(CliRequest::LoadConfig(request)) => continue_args(&args, request, contents),
        _ => panic!("expected a config file request"),
    }
}

#[test]
fn config_option_reads_the_json_file() {
    for flag in ["--config", "-c"].iter() {
        let r = with_file(&[flag, "daemon-config.json"], Ok(README_CONFIG.to_string()));
        match r {
            Ok(CliRequest::Start(c)) => {
                assert_eq!(c.command, "tsx");
                assert_eq!(c.args, vec!["main.ts".to_string()]);
                assert_eq!(c.cwd, "./");
                assert_eq!(c.restart_delay, 1000);
                assert_eq!(c.max_restarts, None);
                assert!(c.enable_logging);
                assert_eq!(c.log_file, "daemon.log");
                assert_eq!(
                    c.env,
                    vec![
                        ("NODE_ENV".to_string(), "production".to_string()),
                        ("PORT".to_string(), "3000".to_string())
                    ]
                );
                assert!(c.uses_default_cwd());
            }
            _ => panic!("expected a start"),
        }
    }
}

#[test]
fn options_after_the_file_override_it() {
    let file = r#"{"command": "node", "restart_delay": 5, "max_restarts": 4}"#.to_string();
    match with_file(&["-d", "9", "--config", "x.json", "-m", "7"], Ok(file)) {
        Ok(CliRequest::Start(c)) => {
            assert_eq!(c.command, "node");
            assert_eq!(c.restart_delay, 5);
            assert_eq!(c.max_restarts, Some(7));
            assert_eq!(c.args, vec!["main.ts".to_string()]);
        }
        _ => panic!("expected a start"),
    }
}

#[test]
fn config_file_strings_take_escapes() {
    let file = r#"{ "command" : "n\u00e9\"x\"\ud83d\ude00\t" , "args": [] , "env": [] }"#.to_string();
    match with_file(&["-c", "f"], Ok(file)) {
        Ok(CliRequest::Start(c)) => {
            assert_eq!(c.command, "n\u{e9}\"x\"\u{1F600}\t");
            assert!(c.args.is_empty());
            assert!(c.env.is_empty());
        }
        _ => panic!("expected a start"),
    }
}

#[test]
fn invalid_config_files_are_refused() {
    let bad = [
        "", "[]", "{", "{}x", r#"{"unknown": 1}"#, r#"{"restart_delay": -1}"#,
        r#"{"restart_delay": 1.5}"#, r#"{"restart_delay": 01}"#, r#"{"max_restarts": 4294967296}"#,
        r#"{"enable_logging": "yes"}"#, r#"{"command": "a",}"#, r#"{"command": "\ud800"}"#,
        r#"{"args": ["a" "b"]}"#, r#"{"env": [["a"]]}"#, "{\"command\": \"a\nb\"}",
    ];
    for text in bad.iter() {
        match with_file(&["-c", "bad.json"], Ok(text.to_string())) {
            Err(DaemonError::Config(m)) => assert_eq!(m, "Invalid config file: bad.json", "{:?}", text),
            _ => panic!("expected refusal of {:?}", text),
        }
    }
}

#[test]
fn empty_object_keeps_the_configuration() {
    match with_file(&["-C", "deno", "-c", "e.json"], Ok(" { } ".to_string())) {
        Ok(CliRequest::Start(c)) => assert_eq!(c.command, "deno"),
        _ => panic!("expected a start"),
    }
}

#[test]
fn unreadable_config_file_is_an_io_error() {
    let err = std::io::Error::new(std::io::ErrorKind::NotFound, "missing");
    assert!(matches!(with_file(&["--config", "nope.json"], Err(err)), Err(DaemonError::Io(_))));
    assert_eq!(config_error(&["--config"]), "Missing config file");
}

#[test]
fn dot_is_the_default_cwd() {
    let mut c = Config::default();
    c.cwd = ".".to_string();
    assert!(c.uses_default_cwd());
    c.resolve_cwd(Some("/srv/app".to_string()));
    assert_eq!(c.cwd, "/srv/app");
}

#[test]
fn default_cwd_agrees_with_path_equality() {
    let samples = [
        ".", "./", ".//", "./.", "././", "././/.", "..", "./..", "...", "/.", "", ".a", "a",
        ". /", "./a", "/", ".\\",
    ];
    for text in samples.iter() {
        let mut c = Config::default();
        c.cwd = text.to_string();
        let expected = std::path::Path::new(text) == std::path::Path::new(".");
        assert_eq!(c.uses_default_cwd(), expected, "{:?}", text);
    }
}
