//! Log lines: timestamps, levels, console colours and the log file.
use vstd::prelude::*;
use vstd::string::StringExecFns;
use crate::text::{decimal, push_decimal};

verus! {

/// How important a log record is.
#[derive(Clone, Copy, Debug, PartialEq, Eq, Structural)]
pub enum LogLevel {
    Info,
    Success,
    Warn,
    Error,
}

/// The level's name as it appears in a log line.
pub open spec fn level_label(level: LogLevel) -> Seq<char> {
    match level {
        LogLevel::Info => "INFO"@,
        LogLevel::Success => "SUCCESS"@,
        LogLevel::Warn => "WARN"@,
        LogLevel::Error => "ERROR"@,
    }
}

/// The ANSI escape that starts the level's console colour: cyan, green,
/// yellow and red.
pub open spec fn level_color(level: LogLevel) -> Seq<char> {
    match level {
        LogLevel::Info => "\x1b[36m"@,
        LogLevel::Success => "\x1b[32m"@,
        LogLevel::Warn => "\x1b[33m"@,
        LogLevel::Error => "\x1b[31m"@,
    }
}

/// The ANSI escape that ends a colour.
pub open spec fn color_reset() -> Seq<char> {
    "\x1b[0m"@
}

impl LogLevel {
    /// The level's name as it appears in a log line.
    pub fn label(&self) -> (r: &'static str)
        ensures
            r@ == level_label(*self),
    {
        match self {
            LogLevel::Info => "INFO",
            LogLevel::Success => "SUCCESS",
            LogLevel::Warn => "WARN",
            LogLevel::Error => "ERROR",
        }
    }

    fn color(&self) -> (r: &'static str)
        ensures
            r@ == level_color(*self),
    {
        match self {
            LogLevel::Info => "\x1b[36m",
            LogLevel::Success => "\x1b[32m",
            LogLevel::Warn => "\x1b[33m",
            LogLevel::Error => "\x1b[31m",
        }
    }
}

/// A message to log, with its level.
pub struct LogRecord {
    pub level: LogLevel,
    pub message: String,
}

impl LogRecord {
    /// The record with the given level and message.
    pub fn new(level: LogLevel, message: String) -> (r: LogRecord)
        ensures
            r@ == entry(level, message@),
    {
        LogRecord { level, message }
    }

    /// The record with the given level and message text.
    pub fn from_text(level: LogLevel, message: &str) -> (r: LogRecord)
        ensures
            r@ == entry(level, message@),
    {
        LogRecord { level, message: String::from_str(message) }
    }
}

/// A log record taken by characters.
pub struct LogEntry {
    pub level: LogLevel,
    pub message: Seq<char>,
}

impl View for LogRecord {
    type V = LogEntry;

    open spec fn view(&self) -> LogEntry {
        LogEntry { level: self.level, message: self.message@ }
    }
}

/// The log record with the given level and message.
pub open spec fn entry(level: LogLevel, message: Seq<char>) -> LogEntry {
    LogEntry { level, message }
}

/// What one log call writes: the coloured line for the console, and the plain
/// line for the log file when file logging is on.
pub struct RenderedLog {
    pub console: String,
    pub file_line: Option<String>,
}

/// A timestamp in seconds since the epoch, as written in log lines.
pub open spec fn timestamp_text(secs: u64) -> Seq<char> {
    decimal(secs as nat) + " UTC"@
}

/// The plain log line: `[timestamp] [LEVEL] message`.
pub open spec fn log_line(secs: u64, level: LogLevel, message: Seq<char>) -> Seq<char> {
    "["@ + timestamp_text(secs) + "] ["@ + level_label(level) + "] "@ + message
}

/// The console form of a line: wrapped in the level's colour.
pub open spec fn colored(level: LogLevel, line: Seq<char>) -> Seq<char> {
    level_color(level) + line + color_reset()
}

/// Writes a timestamp given in seconds since the epoch.
pub fn format_timestamp(secs: u64) -> (r: String)
    ensures
        r@ == timestamp_text(secs),
{
    let mut r = String::new();
    push_decimal(&mut r, secs);
    r.append(" UTC");
    assert(r@ =~= timestamp_text(secs));
    r
}

/// Renders a log record at time `now_secs`: the console line, coloured by
/// level, and, when `enable_logging` is on, the plain line for the log file.
pub fn render_log(enable_logging: bool, now_secs: u64, record: &LogRecord) -> (r: RenderedLog)
    ensures
        r.console@ == colored(record.level, log_line(now_secs, record.level, record.message@)),
        r.file_line is Some <==> enable_logging,
        r.file_line matches Some(l) ==> l@ == log_line(now_secs, record.level, record.message@),
{
    let mut line = String::from_str("[");
    line.append(format_timestamp(now_secs).as_str());
    line.append("] [");
    line.append(record.level.label());
    line.append("] ");
    line.append(record.message.as_str());
    assert(line@ =~= log_line(now_secs, record.level, record.message@));
    let mut console = String::from_str(record.level.color());
    console.append(line.as_str());
    console.append("\x1b[0m");
    assert(console@ =~= colored(record.level, log_line(now_secs, record.level, record.message@)));
    let file_line = if enable_logging {
        Some(line)
    } else {
        None
    };
    RenderedLog { console, file_line }
}

} // verus!
