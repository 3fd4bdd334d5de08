//! The daemon's configuration.
use vstd::prelude::*;
use vstd::string::StringExecFns;
use crate::error::{DaemonError, ErrorView};

verus! {

/// What to run and how to supervise it. Paths are held as text.
#[derive(Debug, Clone)]
pub struct Config {
    pub command: String,
    pub args: Vec<String>,
    pub cwd: String,
    pub restart_delay: u64,
    pub max_restarts: Option<u32>,
    pub enable_logging: bool,
    pub log_file: String,
    pub env: Vec<(String, String)>,
}

/// A configuration with its texts taken by their characters.
pub struct ConfigView {
    pub command: Seq<char>,
    pub args: Seq<Seq<char>>,
    pub cwd: Seq<char>,
    pub restart_delay: u64,
    pub max_restarts: Option<u32>,
    pub enable_logging: bool,
    pub log_file: Seq<char>,
    pub env: Seq<(Seq<char>, Seq<char>)>,
}

/// The characters of each string.
pub open spec fn strings_view(v: Seq<String>) -> Seq<Seq<char>> {
    v.map_values(|s: String| s@)
}

/// The characters of each name and value.
pub open spec fn pairs_view(v: Seq<(String, String)>) -> Seq<(Seq<char>, Seq<char>)> {
    v.map_values(|p: (String, String)| (p.0@, p.1@))
}

impl View for Config {
    type V = ConfigView;

    open spec fn view(&self) -> ConfigView {
        ConfigView {
            command: self.command@,
            args: strings_view(self.args@),
            cwd: self.cwd@,
            restart_delay: self.restart_delay,
            max_restarts: self.max_restarts,
            enable_logging: self.enable_logging,
            log_file: self.log_file@,
            env: pairs_view(self.env@),
        }
    }
}

/// The configuration used where nothing else is given: run `tsx main.ts` in
/// the current directory, restart after one second without limit, and log to
/// `daemon.log`.
pub open spec fn default_config() -> ConfigView {
    ConfigView {
        command: "tsx"@,
        args: seq!["main.ts"@],
        cwd: "."@,
        restart_delay: 1000,
        max_restarts: None,
        enable_logging: true,
        log_file: "daemon.log"@,
        env: seq![],
    }
}

/// The message of the error for an empty command.
pub open spec fn empty_command_message() -> Seq<char> {
    "Command cannot be empty"@
}

impl Default for Config {
    fn default() -> (r: Config)
        ensures
            r@ == default_config(),
    {
        let mut args: Vec<String> = Vec::new();
        args.push(String::from_str("main.ts"));
        let r = Config {
            command: String::from_str("tsx"),
            args,
            cwd: String::from_str("."),
            restart_delay: 1000,
            max_restarts: None,
            enable_logging: true,
            log_file: String::from_str("daemon.log"),
            env: Vec::new(),
        };
        assert(strings_view(r.args@) =~= seq!["main.ts"@]);
        assert(pairs_view(r.env@) =~= Seq::<(Seq<char>, Seq<char>)>::empty());
        r
    }
}

/// A copy of a list of strings.
pub fn copy_strings(v: &Vec<String>) -> (r: Vec<String>)
    ensures
        strings_view(r@) == strings_view(v@),
{
    let mut r: Vec<String> = Vec::new();
    let mut i: usize = 0;
    while i < v.len()
        invariant
            i <= v.len(),
            strings_view(r@) =~= strings_view(v@.take(i as int)),
        decreases v.len() - i,
    {
        let ghost before = r@;
        let c = v[i].clone();
        r.push(c);
        assert(r@ =~= before.push(c));
        assert(v@.take(i + 1) =~= v@.take(i as int).push(v@[i as int]));
        assert(strings_view(r@) =~= strings_view(before).push(c@));
        assert(strings_view(v@.take(i + 1)) =~= strings_view(v@.take(i as int)).push(v@[i as int]@));
        i = i + 1;
    }
    assert(v@.take(v.len() as int) =~= v@);
    r
}

/// A copy of a list of name and value pairs.
pub fn copy_pairs(v: &Vec<(String, String)>) -> (r: Vec<(String, String)>)
    ensures
        pairs_view(r@) == pairs_view(v@),
{
    let mut r: Vec<(String, String)> = Vec::new();
    let mut i: usize = 0;
    while i < v.len()
        invariant
            i <= v.len(),
            pairs_view(r@) =~= pairs_view(v@.take(i as int)),
        decreases v.len() - i,
    {
        let (name, value) = &v[i];
        let ghost before = r@;
        let p = (name.clone(), value.clone());
        r.push(p);
        assert(r@ =~= before.push(p));
        assert(v@.take(i + 1) =~= v@.take(i as int).push(v@[i as int]));
        assert(pairs_view(r@) =~= pairs_view(before).push((p.0@, p.1@)));
        assert(pairs_view(v@.take(i + 1)) =~= pairs_view(v@.take(i as int)).push(
            (v@[i as int].0@, v@[i as int].1@),
        ));
        i = i + 1;
    }
    assert(v@.take(v.len() as int) =~= v@);
    r
}

impl Config {
    /// Accepts the configuration unless its command is empty.
    pub fn validate(&self) -> (r: Result<(), DaemonError>)
        ensures
            r is Ok <==> self.command@.len() > 0,
            r matches Err(e) ==> e@ == ErrorView::Config(empty_command_message()),
    {
        if self.command.as_str().is_empty() {
            return Err(DaemonError::Config(String::from_str("Command cannot be empty")));
        }
        Ok(())
    }

    /// A copy of the configuration, equal to it field by field.
    pub fn duplicate(&self) -> (r: Config)
        ensures
            r@ == self@,
    {
        Config {
            command: self.command.clone(),
            args: copy_strings(&self.args),
            cwd: self.cwd.clone(),
            restart_delay: self.restart_delay,
            max_restarts: self.max_restarts,
            enable_logging: self.enable_logging,
            log_file: self.log_file.clone(),
            env: copy_pairs(&self.env),
        }
    }
}

} // verus!
