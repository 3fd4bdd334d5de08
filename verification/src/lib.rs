//! A supervisor that turns itself into a daemon and keeps one child process
//! running: it starts the configured command, restarts it after every exit
//! following a delay, stops at an optional restart limit, stops or restarts
//! the child gracefully on request, and logs each step with a timestamp to the
//! console and to a log file.
//!
//! The library decides; the caller acts. `Daemon` and `ProcessManager` are
//! state machines: each call returns a `Directive` (log records to write and
//! an `Operation` to perform), and the caller reports what the operation came
//! to as an `Outcome`.

pub mod cli;
pub mod config;
pub mod config_file;
pub mod daemon;
pub mod directive;
pub mod error;
pub mod laws;
pub mod logging;
pub mod process;
pub mod text;

pub use cli::{CliRequest, parse_args};
pub use config::Config;
pub use daemon::Daemon;
pub use directive::{Directive, Operation, Outcome};
pub use error::DaemonError;
pub use logging::format_timestamp;
pub use process::ProcessManager;
