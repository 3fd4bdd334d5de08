//! The daemon's error type.
use vstd::prelude::*;
use vstd::string::StringExecFns;

verus! {

/// `std::io::Error`, carried through the library as an opaque value.
#[verifier::external_type_specification]
#[verifier::external_body]
pub struct ExIoError(std::io::Error);

/// What can go wrong while configuring, daemonizing or supervising.
#[derive(Debug)]
pub enum DaemonError {
    Io(std::io::Error),
    Process(String),
    Config(String),
    Daemon(String),
}

/// A `DaemonError` with its messages taken by their characters.
pub enum ErrorView {
    Io(std::io::Error),
    Process(Seq<char>),
    Config(Seq<char>),
    Daemon(Seq<char>),
}

impl View for DaemonError {
    type V = ErrorView;

    open spec fn view(&self) -> ErrorView {
        match self {
            DaemonError::Io(e) => ErrorView::Io(*e),
            DaemonError::Process(m) => ErrorView::Process(m@),
            DaemonError::Config(m) => ErrorView::Config(m@),
            DaemonError::Daemon(m) => ErrorView::Daemon(m@),
        }
    }
}

/// The text that `std::io::Error`'s `Display` writes. It comes from the
/// operating system (and its locale), so nothing is stated of it.
#[verifier::external_body]
fn io_error_text(e: &std::io::Error) -> String {
    format!("{}", e)
}

/// The message of an I/O error whose own text is `text`.
pub fn io_error_message(text: &str) -> (r: String)
    ensures
        r@ == "IO error: "@ + text@,
{
    String::from_str("IO error: ").concat(text)
}

impl DaemonError {
    /// The error's message, as `Display` writes it: a prefix naming the kind
    /// of error, then its own text. For an I/O error that text is the one
    /// the operating system gives, put after the prefix by `io_error_message`.
    pub fn message(&self) -> (r: String)
        ensures
            match self {
                DaemonError::Io(_) => "IO error: "@.is_prefix_of(r@),
                DaemonError::Process(m) => r@ == "Process error: "@ + m@,
                DaemonError::Config(m) => r@ == "Config error: "@ + m@,
                DaemonError::Daemon(m) => r@ == "Daemon error: "@ + m@,
            },
    {
        match self {
            DaemonError::Io(e) => io_error_message(io_error_text(e).as_str()),
            DaemonError::Process(m) => String::from_str("Process error: ").concat(m.as_str()),
            DaemonError::Config(m) => String::from_str("Config error: ").concat(m.as_str()),
            DaemonError::Daemon(m) => String::from_str("Daemon error: ").concat(m.as_str()),
        }
    }
}

impl From<std::io::Error> for DaemonError {
    fn from(error: std::io::Error) -> (r: DaemonError) {
        DaemonError::Io(error)
    }
}

impl vstd::std_specs::convert::FromSpecImpl<std::io::Error> for DaemonError {
    open spec fn obeys_from_spec() -> bool {
        true
    }

    open spec fn from_spec(v: std::io::Error) -> DaemonError {
        DaemonError::Io(v)
    }
}

} // verus!
