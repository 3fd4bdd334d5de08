use fluxion_daemon::error::DaemonError;

#[test]
fn messages_name_the_kind_of_error() {
    assert_eq!(DaemonError::Process("boom".to_string()).message(), "Process error: boom");
    assert_eq!(DaemonError::Config("bad".to_string()).message(), "Config error: bad");
    assert_eq!(DaemonError::Daemon("setsid failed".to_string()).message(), "Daemon error: setsid failed");
}

#[test]
fn io_errors_convert_and_keep_their_text() {
    let io = std::io::Error::new(std::io::ErrorKind::NotFound, "no such file");
    let e: DaemonError = io.into();
    assert!(matches!(e, DaemonError::Io(_)));
    assert_eq!(e.message(), "IO error: no such file");
}

#[test]
fn io_error_message_puts_the_text_after_the_prefix() {
    assert_eq!(fluxion_daemon::error::io_error_message("broken pipe"), "IO error: broken pipe");
}
