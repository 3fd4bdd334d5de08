use fluxion_daemon::logging::{format_timestamp, render_log, LogLevel, LogRecord};

#[test]
fn timestamp_is_seconds_in_utc() {
    assert_eq!(format_timestamp(1725029869), "1725029869 UTC");
    assert_eq!(format_timestamp(0), "0 UTC");
}

#[test]
fn log_lines_carry_time_level_and_message() {
    let r = render_log(true, 42, &LogRecord { level: LogLevel::Info, message: "hello".to_string() });
    assert_eq!(r.file_line.as_deref(), Some("[42 UTC] [INFO] hello"));
    assert_eq!(r.console, "\x1b[36m[42 UTC] [INFO] hello\x1b[0m");
}

#[test]
fn each_level_has_its_colour() {
    let cases = [
        (LogLevel::Success, "SUCCESS", "\x1b[32m"),
        (LogLevel::Warn, "WARN", "\x1b[33m"),
        (LogLevel::Error, "ERROR", "\x1b[31m"),
    ];
    for (level, label, color) in cases.iter() {
        let r = render_log(false, 7, &LogRecord { level: *level, message: "m".to_string() });
        assert_eq!(r.console, format!("{}[7 UTC] [{}] m\x1b[0m", color, label));
        assert!(r.file_line.is_none());
        assert_eq!(level.label(), *label);
    }
}
