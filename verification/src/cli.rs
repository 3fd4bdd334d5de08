//! Reading the command line into a configuration.
use vstd::prelude::*;
use vstd::string::StringExecFns;
use crate::config::{Config, ConfigView, default_config, strings_view};
use crate::config_file::{apply_config_file, decode_config};
use crate::error::{DaemonError, ErrorView};
use crate::text::{parse_u32, parse_u64, parse_unsigned, split_whitespace, words};

verus! {

/// What the command line asks for.
pub enum CliRequest {
    /// Print the usage text and exit successfully.
    ShowHelp,
    /// Run the daemon with this configuration.
    Start(Config),
    /// Read the configuration file named in the request, then go on with
    /// `continue_args`.
    LoadConfig(ConfigRequest),
}

/// A configuration file to read before the rest of the command line.
pub struct ConfigRequest {
    /// The file's path, as given.
    pub path: String,
    /// The configuration as the options before the file made it.
    pub config: Config,
    /// The position of the next option.
    pub next: usize,
}

/// The outcome of reading a command line, with texts taken by their characters.
pub enum ParseView {
    ShowHelp,
    Start(ConfigView),
    LoadConfig { path: Seq<char>, config: ConfigView, next: int },
    Failed(ErrorView),
}

/// A configuration error with the given message.
pub open spec fn config_error(msg: Seq<char>) -> ParseView {
    ParseView::Failed(ErrorView::Config(msg))
}

/// Reads the options from position `i` on, starting from `c`. Each option
/// takes the argument after it as its value; a later option overrides an
/// earlier one; the first bad option decides the error.
pub open spec fn parse_from(args: Seq<Seq<char>>, i: int, c: ConfigView) -> ParseView
    decreases args.len() - i,
{
    if i < 0 || i >= args.len() {
        ParseView::Start(c)
    } else {
        let a = args[i];
        let has_value = i + 1 < args.len();
        let v = args[i + 1];
        if a == "-h"@ || a == "--help"@ {
            ParseView::ShowHelp
        } else if a == "-C"@ || a == "--command"@ {
            if has_value {
                parse_from(args, i + 2, ConfigView { command: v, ..c })
            } else {
                config_error("Missing command"@)
            }
        } else if a == "-a"@ || a == "--args"@ {
            if has_value {
                parse_from(args, i + 2, ConfigView { args: words(v), ..c })
            } else {
                config_error("Missing arguments"@)
            }
        } else if a == "-w"@ || a == "--cwd"@ {
            if has_value {
                parse_from(args, i + 2, ConfigView { cwd: v, ..c })
            } else {
                config_error("Missing working directory"@)
            }
        } else if a == "-d"@ || a == "--delay"@ {
            if has_value {
                match parse_unsigned(v, u64::MAX as nat) {
                    Some(n) => parse_from(args, i + 2, ConfigView { restart_delay: n as u64, ..c }),
                    None => config_error("Invalid restart delay"@),
                }
            } else {
                config_error("Missing restart delay"@)
            }
        } else if a == "-m"@ || a == "--max-restarts"@ {
            if has_value {
                match parse_unsigned(v, u32::MAX as nat) {
                    Some(n) => parse_from(
                        args,
                        i + 2,
                        ConfigView { max_restarts: Some(n as u32), ..c },
                    ),
                    None => config_error("Invalid max restarts"@),
                }
            } else {
                config_error("Missing max restarts"@)
            }
        } else if a == "-c"@ || a == "--config"@ {
            if has_value {
                ParseView::LoadConfig { path: v, config: c, next: i + 2 }
            } else {
                config_error("Missing config file"@)
            }
        } else if a == "-l"@ || a == "--log-file"@ {
            if has_value {
                parse_from(args, i + 2, ConfigView { log_file: v, ..c })
            } else {
                config_error("Missing log file path"@)
            }
        } else {
            config_error("Unknown argument: "@ + a)
        }
    }
}

/// Reads a whole command line; the first argument names the program and is
/// skipped.
pub open spec fn parse_command_line(args: Seq<Seq<char>>) -> ParseView {
    parse_from(args, 1, default_config())
}

/// The outcome of `parse_args` taken by characters.
pub open spec fn request_view(r: Result<CliRequest, DaemonError>) -> ParseView {
    match r {
        Ok(CliRequest::ShowHelp) => ParseView::ShowHelp,
        Ok(CliRequest::Start(c)) => ParseView::Start(c@),
        Ok(CliRequest::LoadConfig(q)) => ParseView::LoadConfig {
            path: q.path@,
            config: q.config@,
            next: q.next as int,
        },
        Err(e) => ParseView::Failed(e@),
    }
}

/// Whether `a` is the option's short or long spelling.
fn is_option(a: &String, short: &str, long: &str) -> (r: bool)
    ensures
        r == (a@ == short@ || a@ == long@),
{
    *a == String::from_str(short) || *a == String::from_str(long)
}

fn config_failure(msg: &str) -> (r: Result<CliRequest, DaemonError>)
    ensures
        request_view(r) == config_error(msg@),
{
    Err(DaemonError::Config(String::from_str(msg)))
}

/// The message for a configuration file that is not valid.
pub open spec fn invalid_file_message(path: Seq<char>) -> Seq<char> {
    "Invalid config file: "@ + path
}

/// Going on after the configuration file `path` was read (or not): a read
/// error stops with that error; a valid file's fields replace those of
/// `config` and the options from `next` on follow; an invalid file is a
/// configuration error.
pub open spec fn continue_view(
    args: Seq<Seq<char>>,
    path: Seq<char>,
    config: ConfigView,
    next: int,
    contents: Result<String, std::io::Error>,
) -> ParseView {
    match contents {
        Err(e) => ParseView::Failed(ErrorView::Io(e)),
        Ok(t) => match decode_config(t@, config) {
            Some(c2) => parse_from(args, next, c2),
            None => config_error(invalid_file_message(path)),
        },
    }
}

/// Reads the command line `args` (program name first) into a request: show
/// the help, or start with the configuration that the options describe, or
/// read a configuration file first, or fail with the configuration error of
/// the first bad option.
pub fn parse_args(args: &Vec<String>) -> (r: Result<CliRequest, DaemonError>)
    ensures
        request_view(r) == parse_command_line(strings_view(args@)),
{
    parse_options(args, 1, Config::default())
}

/// Goes on reading the command line after the configuration file of
/// `request` was read into `contents` (or could not be).
pub fn continue_args(
    args: &Vec<String>,
    request: ConfigRequest,
    contents: Result<String, std::io::Error>,
) -> (r: Result<CliRequest, DaemonError>)
    ensures
        request_view(r) == continue_view(
            strings_view(args@),
            request.path@,
            request.config@,
            request.next as int,
            contents,
        ),
{
    match contents {
        Err(e) => Err(DaemonError::Io(e)),
        Ok(text) => match apply_config_file(text.as_str(), request.config) {
            Some(c2) => parse_options(args, request.next, c2),
            None => {
                let msg = String::from_str("Invalid config file: ").concat(request.path.as_str());
                Err(DaemonError::Config(msg))
            },
        },
    }
}

/// Reads the options from position `start` on, starting from `initial`.
fn parse_options(args: &Vec<String>, start: usize, initial: Config) -> (r: Result<
    CliRequest,
    DaemonError,
>)
    ensures
        request_view(r) == parse_from(strings_view(args@), start as int, initial@),
{
    let ghost sargs = strings_view(args@);
    let ghost goal = parse_from(sargs, start as int, initial@);
    let mut config = initial;
    let mut i = start;
    while i < args.len()
        invariant
            sargs == strings_view(args@),
            goal == parse_from(sargs, i as int, config@),
            goal == parse_from(strings_view(args@), start as int, initial@),
        decreases args.len() - i,
    {
        let a = &args[i];
        let has_value = i + 1 < args.len();
        assert(sargs[i as int] == a@);
        if has_value {
            assert(sargs[i + 1] == args@[i + 1]@);
        }
        if is_option(a, "-h", "--help") {
            return Ok(CliRequest::ShowHelp);
        } else if is_option(a, "-C", "--command") {
            if !has_value {
                return config_failure("Missing command");
            }
            config.command = args[i + 1].clone();
            i = i + 2;
        } else if is_option(a, "-a", "--args") {
            if !has_value {
                return config_failure("Missing arguments");
            }
            config.args = split_whitespace(args[i + 1].as_str());
            i = i + 2;
        } else if is_option(a, "-w", "--cwd") {
            if !has_value {
                return config_failure("Missing working directory");
            }
            config.cwd = args[i + 1].clone();
            i = i + 2;
        } else if is_option(a, "-d", "--delay") {
            if !has_value {
                return config_failure("Missing restart delay");
            }
            match parse_u64(args[i + 1].as_str()) {
                Some(n) => {
                    config.restart_delay = n;
                },
                None => {
                    return config_failure("Invalid restart delay");
                },
            }
            i = i + 2;
        } else if is_option(a, "-m", "--max-restarts") {
            if !has_value {
                return config_failure("Missing max restarts");
            }
            match parse_u32(args[i + 1].as_str()) {
                Some(n) => {
                    config.max_restarts = Some(n);
                },
                None => {
                    return config_failure("Invalid max restarts");
                },
            }
            i = i + 2;
        } else if is_option(a, "-c", "--config") {
            if !has_value {
                return config_failure("Missing config file");
            }
            let request = ConfigRequest { path: args[i + 1].clone(), config, next: i + 2 };
            return Ok(CliRequest::LoadConfig(request));
        } else if is_option(a, "-l", "--log-file") {
            if !has_value {
                return config_failure("Missing log file path");
            }
            config.log_file = args[i + 1].clone();
            i = i + 2;
        } else {
            let msg = String::from_str("Unknown argument: ").concat(a.as_str());
            return Err(DaemonError::Config(msg));
        }
    }
    Ok(CliRequest::Start(config))
}

/// Whether a text names the current directory, that is, whether
/// `std::path::Path` finds it equal to `.`: paths are compared by their
/// components, a leading `.` is a component of its own, later `.` pieces and
/// repeated or trailing separators are dropped. So the text is a `.`
/// followed only by `/` separators and single `.` pieces (`./`, `./.`,
/// `.//`), and `..` is not among its pieces.
pub open spec fn names_current_dir(p: Seq<char>) -> bool {
    &&& p.len() > 0
    &&& p[0] == '.'
    &&& forall|i: int| 0 <= i < p.len() ==> p[i] == '.' || p[i] == '/'
    &&& forall|i: int| 0 <= i < p.len() - 1 ==> !(#[trigger] p[i] == '.' && p[i + 1] == '.')
}

/// `Path::new(p) == Path::new(".")`.
#[verifier::external_body]
fn is_current_dir_path(p: &str) -> (r: bool)
    ensures
        r == names_current_dir(p@),
{
    std::path::Path::new(p) == std::path::Path::new(".")
}

/// `c` with its working directory replaced by `current_dir`, or by `.` when
/// there is none.
pub open spec fn resolved_cwd(c: ConfigView, current_dir: Option<String>) -> ConfigView {
    let cwd = match current_dir {
        Some(d) => d@,
        None => "."@,
    };
    ConfigView { cwd, ..c }
}

impl Config {
    /// Whether the working directory is the current one, written as `.`
    /// (or `./` and the like).
    pub fn uses_default_cwd(&self) -> (r: bool)
        ensures
            r == names_current_dir(self.cwd@),
            self.cwd@ == "."@ ==> r,
    {
        proof {
            reveal_strlit(".");
        }
        is_current_dir_path(self.cwd.as_str())
    }

    /// Replaces a working directory of `.` by the process's current directory
    /// as read by the caller, or keeps `.` when that could not be read. Any
    /// other working directory stays as it is.
    pub fn resolve_cwd(&mut self, current_dir: Option<String>)
        ensures
            names_current_dir(old(self).cwd@) ==> final(self)@ == resolved_cwd(
                old(self)@,
                current_dir,
            ),
            old(self).cwd@ == "."@ ==> final(self)@ == resolved_cwd(old(self)@, current_dir),
            !names_current_dir(old(self).cwd@) ==> final(self)@ == old(self)@,
    {
        if self.uses_default_cwd() {
            match current_dir {
                Some(d) => {
                    self.cwd = d;
                },
                None => {
                    self.cwd = String::from_str(".");
                },
            }
        }
    }
}

} // verus!
