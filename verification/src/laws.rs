//! Properties of the supervisor and the daemon that span several calls.
use vstd::prelude::*;
use crate::cli::{ParseView, continue_view, parse_command_line, parse_from};
use crate::config::{ConfigView, default_config};
use crate::daemon::{
    DaemonStage,
    DaemonView,
    begin_supervising,
    daemon_resume,
    daemon_start,
    fresh_manager,
    pid_file_path,
    stderr_path,
    stdin_path,
    stdout_path,
};
use crate::directive::{OperationView, Outcome};
use crate::error::ErrorView;
use crate::logging::timestamp_text;
use crate::process::{
    ManagerView,
    SupervisorPhase,
    awaits,
    counter_room,
    grace_period_millis,
    limit_message,
    limit_reached,
    manager_restart,
    manager_resume,
    manager_start,
    manager_stop,
};
use crate::config_file::{
    decode_config,
    is_json_ws,
    member_value,
    members_from,
    parse_member,
    parse_string,
    parse_string_array,
    parse_uint,
    skip_ws,
    string_from,
    strings_from,
    word_at,
};
use crate::text::{
    all_digits,
    decimal,
    digit_char,
    digits_end,
    digits_value,
    is_digit,
    parse_unsigned,
    unsigned_digits,
};

verus! {

/// The supervisor's standing invariant: it never counts more starts than the
/// first one plus the allowed restarts, and it asks for a spawn only below
/// the limit.
pub open spec fn supervisor_inv(s: ManagerView) -> bool {
    &&& s.config.max_restarts matches Some(m) ==> s.restart_count <= m + 1
    &&& s.phase == SupervisorPhase::Spawning ==> !limit_reached(s)
}

/// A fresh supervisor satisfies the invariant, and starting, resuming,
/// stopping and restarting keep it; a spawn is asked for only while fewer
/// restarts than the limit have happened.
pub proof fn law_restart_limit_kept(s: ManagerView, o: Outcome)
    requires
        supervisor_inv(s),
    ensures
        supervisor_inv(fresh_manager(s.config)),
        supervisor_inv(manager_start(s).0),
        supervisor_inv(manager_stop(s).0),
        supervisor_inv(manager_restart(s).0),
        awaits(s.phase, o) && counter_room(s, o) ==> supervisor_inv(manager_resume(s, o).0),
        manager_start(s).1.op is Spawn ==> !limit_reached(s),
        manager_restart(s).1.op is Spawn ==> !limit_reached(s),
        awaits(s.phase, o) && manager_resume(s, o).1.op is Spawn ==> !limit_reached(s),
{
}

/// One call of the supervisor.
pub enum ManagerCall {
    Start,
    Resume(Outcome),
    Stop,
    Restart,
}

/// The supervisor after one call.
pub open spec fn apply_call(s: ManagerView, c: ManagerCall) -> ManagerView {
    match c {
        ManagerCall::Start => manager_start(s).0,
        ManagerCall::Resume(o) => manager_resume(s, o).0,
        ManagerCall::Stop => manager_stop(s).0,
        ManagerCall::Restart => manager_restart(s).0,
    }
}

/// Whether every call in `calls` may be made, one after the other, from `s`:
/// each outcome is awaited and leaves room in the counter.
pub open spec fn legal_calls(s: ManagerView, calls: Seq<ManagerCall>) -> bool
    decreases calls.len(),
{
    if calls.len() == 0 {
        true
    } else {
        &&& calls[0] matches ManagerCall::Resume(o) ==> awaits(s.phase, o) && counter_room(s, o)
        &&& legal_calls(apply_call(s, calls[0]), calls.drop_first())
    }
}

/// The supervisor after all of `calls`.
pub open spec fn apply_calls(s: ManagerView, calls: Seq<ManagerCall>) -> ManagerView
    decreases calls.len(),
{
    if calls.len() == 0 {
        s
    } else {
        apply_calls(apply_call(s, calls[0]), calls.drop_first())
    }
}

/// How many of `calls` report a successful spawn.
pub open spec fn successful_spawns(calls: Seq<ManagerCall>) -> nat
    decreases calls.len(),
{
    if calls.len() == 0 {
        0
    } else {
        (if calls[0] matches ManagerCall::Resume(Outcome::Spawned { .. }) {
            1nat
        } else {
            0nat
        }) + successful_spawns(calls.drop_first())
    }
}

/// The restart count is the number of children started: over any legal
/// sequence of calls it grows by exactly the number of successful spawns, so
/// from a fresh supervisor it equals that number.
pub proof fn law_count_is_successful_spawns(s: ManagerView, calls: Seq<ManagerCall>)
    requires
        legal_calls(s, calls),
    ensures
        apply_calls(s, calls).restart_count == s.restart_count + successful_spawns(calls),
    decreases calls.len(),
{
    if calls.len() > 0 {
        law_count_is_successful_spawns(apply_call(s, calls[0]), calls.drop_first());
    }
}

/// Whatever way the child exits, the supervisor sleeps the restart delay
/// and then starts the same command again, unless the restart limit is
/// reached, in which case it stops with the limit's error. Without a limit it
/// always starts again.
pub proof fn law_restart_after_exit(s: ManagerView, success: bool, code: Option<i32>)
    requires
        s.phase == SupervisorPhase::Running,
        s.restart_count < u32::MAX,
    ensures
        ({
            let (t, d) = manager_resume(s, Outcome::Exited { success, code });
            let (u, e) = manager_resume(t, Outcome::Slept);
            &&& d.op == OperationView::Sleep { millis: s.config.restart_delay }
            &&& t.child_pid is None
            &&& !limit_reached(s) ==> e.op == (OperationView::Spawn {
                program: s.config.command,
                args: s.config.args,
                cwd: s.config.cwd,
                env: s.config.env,
            })
            &&& limit_reached(s) ==> e.op == OperationView::Finish(
                Err(ErrorView::Process(limit_message(s.config.max_restarts->0))),
            )
            &&& s.config.max_restarts is None ==> e.op is Spawn
        }),
{
}

/// One round of supervision in which the child starts with `pid`, exits as
/// given, and the restart delay passes.
pub open spec fn round(s: ManagerView, pid: u32, success: bool, code: Option<i32>) -> ManagerView {
    let a = manager_resume(s, Outcome::Spawned { pid }).0;
    let b = manager_resume(a, Outcome::Exited { success, code }).0;
    manager_resume(b, Outcome::Slept).0
}

/// The supervisor after `k` rounds from `s`.
pub open spec fn rounds(s: ManagerView, k: nat, pid: u32, success: bool, code: Option<i32>) -> ManagerView
    decreases k,
{
    if k == 0 {
        s
    } else {
        round(rounds(s, (k - 1) as nat, pid, success, code), pid, success, code)
    }
}

proof fn lemma_rounds(c: ConfigView, m: u32, k: nat, pid: u32, success: bool, code: Option<i32>)
    requires
        c.max_restarts == Some(m),
        m + 1 < u32::MAX,
        k <= m + 1,
    ensures
        ({
            let s = rounds(manager_start(fresh_manager(c)).0, k, pid, success, code);
            &&& s.restart_count == k
            &&& s.config == c
            &&& !s.restarting
            &&& k <= m ==> s.phase == SupervisorPhase::Spawning
            &&& k == m + 1 ==> s.phase == SupervisorPhase::Halted
        }),
    decreases k,
{
    if k > 0 {
        lemma_rounds(c, m, (k - 1) as nat, pid, success, code);
    }
}

/// With a restart limit `m`, a supervisor whose children all start and exit
/// starts the child `m + 1` times (the first start and `m` restarts): it
/// always asks for the first spawn, after each of the first `m` rounds it asks
/// for one more, and after `m + 1` rounds it has stopped.
pub proof fn law_exactly_max_restarts(c: ConfigView, m: u32, pid: u32, success: bool, code: Option<i32>)
    requires
        c.max_restarts == Some(m),
        m + 1 < u32::MAX,
    ensures
        ({
            let first = manager_start(fresh_manager(c));
            &&& first.1.op is Spawn
            &&& forall|k: nat| #![trigger rounds(first.0, k, pid, success, code)]
                k <= m ==> rounds(first.0, k, pid, success, code).phase == SupervisorPhase::Spawning
                    && rounds(first.0, k, pid, success, code).restart_count == k
            &&& rounds(first.0, (m + 1) as nat, pid, success, code).restart_count == m + 1
            &&& rounds(first.0, (m + 1) as nat, pid, success, code).phase == SupervisorPhase::Halted
        }),
{
    let first = manager_start(fresh_manager(c));
    assert forall|k: nat| #![trigger rounds(first.0, k, pid, success, code)]
        k <= m implies rounds(first.0, k, pid, success, code).phase == SupervisorPhase::Spawning
        && rounds(first.0, k, pid, success, code).restart_count == k by {
        lemma_rounds(c, m, k, pid, success, code);
    }
    lemma_rounds(c, m, (m + 1) as nat, pid, success, code);
}

/// The round after the last allowed restart ends with the limit's error.
pub proof fn law_limit_error_after_last_round(
    c: ConfigView,
    m: u32,
    pid: u32,
    success: bool,
    code: Option<i32>,
)
    requires
        c.max_restarts == Some(m),
        m + 1 < u32::MAX,
    ensures
        ({
            let s = rounds(manager_start(fresh_manager(c)).0, m as nat, pid, success, code);
            let a = manager_resume(s, Outcome::Spawned { pid }).0;
            let b = manager_resume(a, Outcome::Exited { success, code }).0;
            manager_resume(b, Outcome::Slept).1.op == OperationView::Finish(
                Err(ErrorView::Process(limit_message(m))),
            )
        }),
{
    lemma_rounds(c, m, m as nat, pid, success, code);
}

/// Stopping never fails: every way through the shutdown ends with success.
pub proof fn law_stop_never_fails(s: ManagerView, o: Outcome)
    requires
        s.phase == SupervisorPhase::Terminating || s.phase == SupervisorPhase::Deadline
            || s.phase == SupervisorPhase::Reaping || s.phase == SupervisorPhase::Backoff
            || s.phase == SupervisorPhase::Killing,
        !s.restarting,
        awaits(s.phase, o),
    ensures
        manager_resume(s, o).1.op is Finish ==> manager_resume(s, o).1.op == OperationView::Finish(
            Ok(()),
        ),
        manager_stop(s).1.op is Finish ==> manager_stop(s).1.op == OperationView::Finish(Ok(())),
{
}

/// A stop with a running child asks it to terminate, waits the grace
/// period, and only then kills it; once it is gone the supervisor finishes.
pub proof fn law_graceful_stop(s: ManagerView, pid: u32, millis: u64)
    requires
        s.child_pid == Some(pid),
    ensures
        ({
            let (a, d) = manager_stop(s);
            let (b, e) = manager_resume(a, Outcome::Terminated);
            let (t, f) = manager_resume(b, Outcome::Elapsed { millis });
            &&& d.op == OperationView::Terminate { pid }
            &&& e.op == OperationView::CheckDeadline
            &&& millis < grace_period_millis() ==> f.op == OperationView::TryReap
            &&& millis < grace_period_millis() ==> manager_resume(
                t,
                Outcome::Reaped { exited: true },
            ).1.op == OperationView::Finish(Ok(()))
            &&& millis >= grace_period_millis() ==> f.op == OperationView::ForceKill
            &&& millis >= grace_period_millis() ==> manager_resume(t, Outcome::Killed).1.op
                == OperationView::Finish(Ok(()))
        }),
{
}

/// A restart with a running child asks it to terminate and, once it has
/// exited or been killed, starts the command again (within the limit): the
/// supervisor keeps running.
pub proof fn law_graceful_restart(s: ManagerView, pid: u32, millis: u64)
    requires
        s.child_pid == Some(pid),
    ensures
        ({
            let (a, d) = manager_restart(s);
            let (b, e) = manager_resume(a, Outcome::Terminated);
            let (t, f) = manager_resume(b, Outcome::Elapsed { millis });
            let next = if millis < grace_period_millis() {
                manager_resume(t, Outcome::Reaped { exited: true })
            } else {
                manager_resume(t, Outcome::Killed)
            };
            &&& d.op == OperationView::Terminate { pid }
            &&& e.op == OperationView::CheckDeadline
            &&& !limit_reached(s) ==> next.1.op == (OperationView::Spawn {
                program: s.config.command,
                args: s.config.args,
                cwd: s.config.cwd,
                env: s.config.env,
            })
            &&& !limit_reached(s) ==> next.0.phase == SupervisorPhase::Spawning
        }),
{
}

/// The daemon detaches properly: from a start, when both forks land in the
/// child and the new session succeeds, it changes to the configured
/// directory, sends its standard streams to `/dev/null` and the `/tmp` output
/// files, records its process id, and hands over to a fresh supervisor.
pub proof fn law_daemonize_then_supervise(s: DaemonView)
    requires
        s.stage == DaemonStage::Idle,
    ensures
        ({
            let (a, d0) = daemon_start(s);
            let (b, d1) = daemon_resume(a, Outcome::Forked { result: 0 });
            let (c, d2) = daemon_resume(b, Outcome::SessionCreated { result: 1 });
            let (e, d3) = daemon_resume(c, Outcome::Forked { result: 0 });
            let (f, d4) = daemon_resume(e, Outcome::Detached);
            let (g, d5) = daemon_resume(f, Outcome::Redirected(Ok(())));
            &&& d0.op == OperationView::Fork
            &&& d1.op == OperationView::NewSession
            &&& d2.op == OperationView::Fork
            &&& d3.op == OperationView::Detach { cwd: s.config.cwd }
            &&& d4.op == (OperationView::RedirectStdio {
                stdin: stdin_path(),
                stdout: stdout_path(),
                stderr: stderr_path(),
            })
            &&& d5.op == OperationView::WritePidFile { path: pid_file_path() }
            &&& daemon_resume(g, Outcome::PidFileWritten { ok: true }) == begin_supervising(g, seq![])
            &&& g.config == s.config
            &&& begin_supervising(g, seq![]).0.manager == Some(
                manager_start(fresh_manager(s.config)).0,
            )
        }),
{
}

/// Every parent side of a fork ends its process, and every failed fork stops
/// the daemon with a daemonization error.
pub proof fn law_fork_outcomes(s: DaemonView, result: i32)
    requires
        s.stage == DaemonStage::FirstFork || s.stage == DaemonStage::SecondFork,
    ensures
        result > 0 ==> daemon_resume(s, Outcome::Forked { result }).1.op == OperationView::ExitParent,
        result == -1 ==> daemon_resume(s, Outcome::Forked { result }).1.op matches OperationView::Finish(
            Err(ErrorView::Daemon(_)),
        ),
        result != -1 ==> !(daemon_resume(s, Outcome::Forked { result }).1.op is Finish),
{
}

proof fn lemma_digit_char(k: nat)
    requires
        k < 10,
    ensures
        crate::text::is_digit(digit_char(k)),
        crate::text::digit_value(digit_char(k)) == k,
        digit_char(k) != '+',
{
}

proof fn lemma_decimal_digits(n: nat)
    ensures
        decimal(n).len() > 0,
        all_digits(decimal(n)),
        digits_value(decimal(n)) == n,
        decimal(n)[0] != '+',
    decreases n,
{
    lemma_digit_char(n % 10);
    if n < 10 {
        let d = decimal(n);
        assert(d.drop_last() =~= Seq::<char>::empty());
        assert(digits_value(d.drop_last()) == 0);
        assert(d.last() == digit_char(n));
        assert(digits_value(d) == digits_value(d.drop_last()) * 10 + crate::text::digit_value(d.last()));
    } else {
        lemma_decimal_digits(n / 10);
        let d = decimal(n);
        assert(d.drop_last() =~= decimal(n / 10));
        assert(d[0] == decimal(n / 10)[0]);
        assert(d.last() == digit_char(n % 10));
        assert(digits_value(d) == digits_value(d.drop_last()) * 10 + crate::text::digit_value(d.last()));
        assert(n == (n / 10) * 10 + n % 10);
        assert forall|i: int| 0 <= i < d.len() implies crate::text::is_digit(#[trigger] d[i]) by {
            if i < d.len() - 1 {
                assert(d[i] == decimal(n / 10)[i]);
            }
        }
    }
}

/// A timestamp's numeral reads back as the number: the text before " UTC" is
/// plain decimal, and `parse_unsigned` (what `str::parse::<u64>` does) gives
/// back the seconds.
pub proof fn law_timestamp_reads_back(secs: u64)
    ensures
        timestamp_text(secs) == decimal(secs as nat) + " UTC"@,
        parse_unsigned(decimal(secs as nat), u64::MAX as nat) == Some(secs as nat),
{
    lemma_decimal_digits(secs as nat);
    assert(unsigned_digits(decimal(secs as nat)) == decimal(secs as nat));
}

/// The option an argument names, whichever of its two spellings it uses.
pub enum OptionKind {
    Help,
    Command,
    Args,
    Cwd,
    Delay,
    MaxRestarts,
    Config,
    LogFile,
    Other,
}

/// The option that `a` spells.
pub open spec fn option_kind(a: Seq<char>) -> OptionKind {
    if a == "-h"@ || a == "--help"@ {
        OptionKind::Help
    } else if a == "-C"@ || a == "--command"@ {
        OptionKind::Command
    } else if a == "-a"@ || a == "--args"@ {
        OptionKind::Args
    } else if a == "-w"@ || a == "--cwd"@ {
        OptionKind::Cwd
    } else if a == "-d"@ || a == "--delay"@ {
        OptionKind::Delay
    } else if a == "-m"@ || a == "--max-restarts"@ {
        OptionKind::MaxRestarts
    } else if a == "-c"@ || a == "--config"@ {
        OptionKind::Config
    } else if a == "-l"@ || a == "--log-file"@ {
        OptionKind::LogFile
    } else {
        OptionKind::Other
    }
}

/// Whether two command lines, read from position `i` on, name the same
/// options in the same order with the same values, each option spelt short
/// or long in either.
pub open spec fn same_options(a1: Seq<Seq<char>>, a2: Seq<Seq<char>>, i: int) -> bool
    decreases a1.len() - i,
{
    &&& a1.len() == a2.len()
    &&& (0 <= i < a1.len()) ==> {
        let k = option_kind(a1[i]);
        &&& k == option_kind(a2[i])
        &&& k == OptionKind::Other ==> a1[i] == a2[i]
        &&& k != OptionKind::Other && k != OptionKind::Help && i + 1 < a1.len() ==> {
            &&& a1[i + 1] == a2[i + 1]
            &&& same_options(a1, a2, i + 2)
        }
    }
}

/// Spelling an option short (`-C`) or long (`--command`) makes no
/// difference: command lines that differ only in the spellings of their
/// options read the same, and so do their continuations after a
/// configuration file.
pub proof fn law_option_spellings(
    a1: Seq<Seq<char>>,
    a2: Seq<Seq<char>>,
    i: int,
    c: ConfigView,
)
    requires
        same_options(a1, a2, i),
    ensures
        parse_from(a1, i, c) == parse_from(a2, i, c),
    decreases a1.len() - i,
{
    reveal_strlit("-h");
    reveal_strlit("--help");
    reveal_strlit("-C");
    reveal_strlit("--command");
    reveal_strlit("-a");
    reveal_strlit("--args");
    reveal_strlit("-w");
    reveal_strlit("--cwd");
    reveal_strlit("-d");
    reveal_strlit("--delay");
    reveal_strlit("-m");
    reveal_strlit("--max-restarts");
    reveal_strlit("-c");
    reveal_strlit("--config");
    reveal_strlit("-l");
    reveal_strlit("--log-file");
    if 0 <= i < a1.len() {
        let k = option_kind(a1[i]);
        if k != OptionKind::Other && k != OptionKind::Help && i + 1 < a1.len() {
            assert forall|c2: ConfigView| #[trigger] parse_from(a1, i + 2, c2) == parse_from(a2, i + 2, c2) by {
                law_option_spellings(a1, a2, i + 2, c2);
            }
        }
        if i + 1 < a1.len() && k != OptionKind::Other && k != OptionKind::Help {
            let v = a1[i + 1];
            assert(v == a2[i + 1]);
            if k == OptionKind::Command {
                let c2 = ConfigView { command: v, ..c };
                assert(parse_from(a1, i + 2, c2) == parse_from(a2, i + 2, c2));
            } else if k == OptionKind::Args {
                let c2 = ConfigView { args: crate::text::words(v), ..c };
                assert(parse_from(a1, i + 2, c2) == parse_from(a2, i + 2, c2));
            } else if k == OptionKind::Cwd {
                let c2 = ConfigView { cwd: v, ..c };
                assert(parse_from(a1, i + 2, c2) == parse_from(a2, i + 2, c2));
            } else if k == OptionKind::LogFile {
                let c2 = ConfigView { log_file: v, ..c };
                assert(parse_from(a1, i + 2, c2) == parse_from(a2, i + 2, c2));
            } else if k == OptionKind::Delay {
                if let Some(n) = parse_unsigned(v, u64::MAX as nat) {
                    let c2 = ConfigView { restart_delay: n as u64, ..c };
                    assert(parse_from(a1, i + 2, c2) == parse_from(a2, i + 2, c2));
                }
            } else if k == OptionKind::MaxRestarts {
                if let Some(n) = parse_unsigned(v, u32::MAX as nat) {
                    let c2 = ConfigView { max_restarts: Some(n as u32), ..c };
                    assert(parse_from(a1, i + 2, c2) == parse_from(a2, i + 2, c2));
                }
            }
        }
    }
}

/// The same for the continuation after a configuration file was read.
pub proof fn law_option_spellings_after_file(
    a1: Seq<Seq<char>>,
    a2: Seq<Seq<char>>,
    path: Seq<char>,
    c: ConfigView,
    next: int,
    contents: Result<String, std::io::Error>,
)
    requires
        same_options(a1, a2, next),
    ensures
        continue_view(a1, path, c, next, contents) == continue_view(a2, path, c, next, contents),
{
    assert forall|c2: ConfigView| #[trigger] parse_from(a1, next, c2) == parse_from(a2, next, c2) by {
        law_option_spellings(a1, a2, next, c2);
    }
}

/// Every start, not only the first, records the new child: after a
/// successful spawn the child with that process id is the one that a stop or
/// a restart asks to terminate.
pub proof fn law_stop_signals_latest_child(s: ManagerView, pid: u32)
    requires
        s.phase == SupervisorPhase::Spawning,
        s.restart_count < u32::MAX,
    ensures
        ({
            let t = manager_resume(s, Outcome::Spawned { pid }).0;
            &&& t.child_pid == Some(pid)
            &&& manager_stop(t).1.op == OperationView::Terminate { pid }
            &&& manager_restart(t).1.op == OperationView::Terminate { pid }
        }),
{
}

/// Reading a command line that ends where its options end: appending more
/// arguments continues from the configuration that the first part gave.
proof fn lemma_parse_extends(a: Seq<Seq<char>>, b: Seq<Seq<char>>, i: int, c: ConfigView)
    requires
        0 <= i <= a.len(),
        parse_from(a, i, c) is Start,
    ensures
        parse_from(a + b, i, c) == parse_from(a + b, a.len() as int, parse_from(a, i, c)->Start_0),
    decreases a.len() - i,
{
    reveal_strlit("-h");
    reveal_strlit("--help");
    reveal_strlit("-C");
    reveal_strlit("--command");
    reveal_strlit("-a");
    reveal_strlit("--args");
    reveal_strlit("-w");
    reveal_strlit("--cwd");
    reveal_strlit("-d");
    reveal_strlit("--delay");
    reveal_strlit("-m");
    reveal_strlit("--max-restarts");
    reveal_strlit("-c");
    reveal_strlit("--config");
    reveal_strlit("-l");
    reveal_strlit("--log-file");
    let ab = a + b;
    if i < a.len() {
        assert(ab[i] == a[i]);
        if i + 1 < a.len() {
            assert(ab[i + 1] == a[i + 1]);
            let v = a[i + 1];
            let k = option_kind(a[i]);
            if k == OptionKind::Command {
                lemma_parse_extends(a, b, i + 2, ConfigView { command: v, ..c });
            } else if k == OptionKind::Args {
                lemma_parse_extends(a, b, i + 2, ConfigView { args: crate::text::words(v), ..c });
            } else if k == OptionKind::Cwd {
                lemma_parse_extends(a, b, i + 2, ConfigView { cwd: v, ..c });
            } else if k == OptionKind::LogFile {
                lemma_parse_extends(a, b, i + 2, ConfigView { log_file: v, ..c });
            } else if k == OptionKind::Delay {
                if let Some(n) = parse_unsigned(v, u64::MAX as nat) {
                    lemma_parse_extends(a, b, i + 2, ConfigView { restart_delay: n as u64, ..c });
                }
            } else if k == OptionKind::MaxRestarts {
                if let Some(n) = parse_unsigned(v, u32::MAX as nat) {
                    lemma_parse_extends(
                        a,
                        b,
                        i + 2,
                        ConfigView { max_restarts: Some(n as u32), ..c },
                    );
                }
            }
        }
    }
}

/// `-C`/`--command` changes the command and nothing else: appending it, with
/// a value, to a command line that starts the daemon gives the same
/// configuration with only the command replaced; in particular the default
/// arguments (`main.ts`) stay when only the command is given.
pub proof fn law_command_option_changes_only_command(a: Seq<Seq<char>>, v: Seq<char>)
    requires
        a.len() >= 1,
        parse_command_line(a) is Start,
    ensures
        parse_command_line(a + seq!["-C"@, v]) == ParseView::Start(
            ConfigView { command: v, ..parse_command_line(a)->Start_0 },
        ),
        parse_command_line(a + seq!["--command"@, v]) == ParseView::Start(
            ConfigView { command: v, ..parse_command_line(a)->Start_0 },
        ),
        parse_command_line(seq![a[0], "-C"@, v]) == ParseView::Start(
            ConfigView { command: v, ..default_config() },
        ),
        (parse_command_line(seq![a[0], "-C"@, v])->Start_0).args == seq!["main.ts"@],
{
    reveal_strlit("-h");
    reveal_strlit("--help");
    reveal_strlit("-C");
    reveal_strlit("--command");
    reveal_strlit("-a");
    reveal_strlit("--args");
    reveal_strlit("-w");
    reveal_strlit("--cwd");
    reveal_strlit("-d");
    reveal_strlit("--delay");
    reveal_strlit("-m");
    reveal_strlit("--max-restarts");
    reveal_strlit("-c");
    reveal_strlit("--config");
    reveal_strlit("-l");
    reveal_strlit("--log-file");
    let c = parse_command_line(a)->Start_0;
    lemma_parse_extends(a, seq!["-C"@, v], 1, default_config());
    lemma_parse_extends(a, seq!["--command"@, v], 1, default_config());
    let a1 = a + seq!["-C"@, v];
    let a2 = a + seq!["--command"@, v];
    assert(a1[a.len() as int] == "-C"@);
    assert(a1[a.len() as int + 1] == v);
    assert(a2[a.len() as int] == "--command"@);
    assert(a2[a.len() as int + 1] == v);
    let c2 = ConfigView { command: v, ..c };
    assert("-C"@[1] != "-h"@[1]);
    assert(a1[a.len() as int] == "-C"@ || a1[a.len() as int] == "--command"@);
    assert(parse_from(a1, a.len() as int + 2, c2) == ParseView::Start(c2));
    assert(parse_from(a1, a.len() as int, c) == parse_from(a1, a.len() as int + 2, c2));
    assert(parse_from(a2, a.len() as int + 2, c2) == ParseView::Start(c2));
    assert(parse_from(a2, a.len() as int, c) == parse_from(a2, a.len() as int + 2, c2));
    let p = seq![a[0]];
    assert(seq![a[0], "-C"@, v][1] == "-C"@);
    assert(parse_command_line(p) == ParseView::Start(default_config()));
    let a3 = seq![a[0], "-C"@, v];
    assert(a3[1] == "-C"@);
    assert(a3[2] == v);
    let c3 = ConfigView { command: v, ..default_config() };
    assert(parse_from(a3, 3, c3) == ParseView::Start(c3));
    assert(parse_from(a3, 1, default_config()) == parse_from(a3, 3, c3));
}

// ---------------------------------------------------------------------------
// What a configuration file sets
// ---------------------------------------------------------------------------

/// A text that can stand between quotes as it is: no quote, no backslash and
/// no control character.
pub open spec fn plain_text(t: Seq<char>) -> bool {
    forall|m: int| 0 <= m < t.len() ==> #[trigger] t[m] != '"' && t[m] != '\\' && (t[m] as u32)
        >= 0x20
}

/// A plain text written as a JSON string.
pub open spec fn quoted(t: Seq<char>) -> Seq<char> {
    seq!['"'] + t + seq!['"']
}

/// The elements of a non-empty JSON array of plain strings, without the
/// brackets: the strings, quoted, separated by commas.
pub open spec fn quoted_list(ts: Seq<Seq<char>>) -> Seq<char>
    decreases ts.len(),
{
    if ts.len() <= 1 {
        if ts.len() == 1 { quoted(ts[0]) } else { seq![] }
    } else {
        quoted(ts[0]) + seq![','] + quoted_list(ts.drop_first())
    }
}

/// A JSON array of plain strings.
pub open spec fn string_array_text(ts: Seq<Seq<char>>) -> Seq<char> {
    seq!['['] + quoted_list(ts) + seq![']']
}

/// A configuration file with the one member `"key":value`.
pub open spec fn single_member_file(key: Seq<char>, value: Seq<char>) -> Seq<char> {
    seq!['{'] + quoted(key) + seq![':'] + value + seq!['}']
}

/// Whether `s` holds `u` from position `i` on.
pub open spec fn holds_at(s: Seq<char>, i: int, u: Seq<char>) -> bool {
    0 <= i && i + u.len() <= s.len() && forall|m: int| 0 <= m < u.len() ==> s[i + m] == #[trigger] u[m]
}

proof fn lemma_skip_no_ws(s: Seq<char>, i: int)
    requires
        0 <= i < s.len(),
        !is_json_ws(s[i]),
    ensures
        skip_ws(s, i) == i,
{
}

proof fn lemma_string_from_plain(s: Seq<char>, t: Seq<char>, i: int, k: int)
    requires
        plain_text(t),
        holds_at(s, i, quoted(t)),
        0 <= k <= t.len(),
    ensures
        string_from(s, i + 1 + k) == Some((t.subrange(k, t.len() as int), i + t.len() + 2)),
    decreases t.len() - k,
{
    assert(s[i + 1 + k] == quoted(t)[1 + k]);
    if k == t.len() {
        assert(t.subrange(k, t.len() as int) =~= Seq::<char>::empty());
    } else {
        assert(quoted(t)[1 + k] == t[k]);
        assert(t[k] != '"' && t[k] != '\\' && (t[k] as u32) >= 0x20);
        lemma_string_from_plain(s, t, i, k + 1);
        assert(seq![t[k]] + t.subrange(k + 1, t.len() as int) =~= t.subrange(k, t.len() as int));
    }
}

/// A plain text between quotes reads as itself.
proof fn lemma_parse_plain_string(s: Seq<char>, t: Seq<char>, i: int)
    requires
        plain_text(t),
        holds_at(s, i, quoted(t)),
    ensures
        parse_string(s, i) == Some((t, i + t.len() + 2)),
{
    assert(s[i] == quoted(t)[0]);
    lemma_string_from_plain(s, t, i, 0);
    assert(t.subrange(0, t.len() as int) =~= t);
}

proof fn lemma_strings_from_plain(s: Seq<char>, ts: Seq<Seq<char>>, i: int)
    requires
        ts.len() >= 1,
        forall|m: int| 0 <= m < ts.len() ==> plain_text(#[trigger] ts[m]),
        holds_at(s, i, quoted_list(ts) + seq![']']),
    ensures
        strings_from(s, i) == Some((ts, i + quoted_list(ts).len() + 1)),
    decreases ts.len(),
{
    let u = quoted_list(ts) + seq![']'];
    let q = quoted(ts[0]);
    assert(plain_text(ts[0]));
    assert(holds_at(s, i, q)) by {
        assert forall|m: int| 0 <= m < q.len() implies s[i + m] == #[trigger] q[m] by {
            assert(u[m] == q[m]);
        }
    }
    lemma_parse_plain_string(s, ts[0], i);
    let k: int = i + q.len();
    if ts.len() == 1 {
        assert(u[q.len() as int] == ']');
        assert(s[k] == ']');
        lemma_skip_no_ws(s, k);
        assert(seq![ts[0]] =~= ts);
    } else {
        let rest = ts.drop_first();
        assert(u[q.len() as int] == ',');
        assert(s[k] == ',');
        lemma_skip_no_ws(s, k);
        let u2 = quoted_list(rest) + seq![']'];
        assert(holds_at(s, k + 1, u2)) by {
            assert forall|m: int| 0 <= m < u2.len() implies s[k + 1 + m] == #[trigger] u2[m] by {
                assert(u[q.len() + 1 + m] == u2[m]);
                assert(s[i + (q.len() + 1 + m)] == u[q.len() + 1 + m]);
            }
        }
        assert(quoted(rest[0])[0] == '"');
        assert(u2[0] == '"');
        lemma_skip_no_ws(s, k + 1);
        assert forall|m: int| 0 <= m < rest.len() implies plain_text(#[trigger] rest[m]) by {
            assert(rest[m] == ts[m + 1]);
        }
        lemma_strings_from_plain(s, rest, k + 1);
        assert(seq![ts[0]] + rest =~= ts);
    }
}

/// A JSON array of plain strings reads as those strings, all of them, in
/// order.
proof fn lemma_parse_plain_array(s: Seq<char>, ts: Seq<Seq<char>>, i: int)
    requires
        forall|m: int| 0 <= m < ts.len() ==> plain_text(#[trigger] ts[m]),
        holds_at(s, i, string_array_text(ts)),
    ensures
        parse_string_array(s, i) == Some((ts, i + string_array_text(ts).len())),
{
    let u = string_array_text(ts);
    assert(s[i] == u[0]);
    assert(s[i + 1] == u[1]);
    lemma_skip_no_ws(s, i + 1);
    if ts.len() == 0 {
        assert(u[1] == ']');
        assert(ts =~= Seq::<Seq<char>>::empty());
    } else {
        assert(quoted(ts[0])[0] == '"');
        assert(quoted_list(ts)[0] == '"');
        assert(u[1] == '"');
        let u2 = quoted_list(ts) + seq![']'];
        assert(holds_at(s, i + 1, u2)) by {
            assert forall|m: int| 0 <= m < u2.len() implies s[i + 1 + m] == #[trigger] u2[m] by {
                assert(u[1 + m] == u2[m]);
                assert(s[i + (1 + m)] == u[1 + m]);
            }
        }
        lemma_strings_from_plain(s, ts, i + 1);
    }
}

/// A one-member file sets what its member's value sets.
proof fn lemma_single_member(key: Seq<char>, value: Seq<char>, c: ConfigView, c2: ConfigView)
    requires
        plain_text(key),
        value.len() > 0,
        !is_json_ws(value[0]),
        member_value(single_member_file(key, value), key.len() + 4int, key, c) == Some(
            (c2, key.len() + 4int + value.len()),
        ),
    ensures
        decode_config(single_member_file(key, value), c) == Some(c2),
{
    let s = single_member_file(key, value);
    let q = quoted(key);
    assert(s.len() == key.len() + value.len() + 5);
    assert(s[0] == '{');
    lemma_skip_no_ws(s, 0);
    assert(s[1] == q[0]);
    lemma_skip_no_ws(s, 1);
    assert(holds_at(s, 1, q)) by {
        assert forall|m: int| 0 <= m < q.len() implies s[1 + m] == #[trigger] q[m] by {}
    }
    lemma_parse_plain_string(s, key, 1);
    let k: int = key.len() as int + 3;
    assert(s[k] == ':');
    lemma_skip_no_ws(s, k);
    assert(s[k + 1] == value[0]);
    lemma_skip_no_ws(s, k + 1);
    assert(parse_member(s, 1, c) == Some((c2, key.len() + 4int + value.len())));
    let e: int = key.len() as int + 4 + value.len();
    assert(s[e] == '}');
    lemma_skip_no_ws(s, e);
    assert(members_from(s, 1, c) == Some((c2, e + 1)));
}

proof fn lemma_decimal_leading(n: nat)
    ensures
        n > 0 ==> decimal(n)[0] != '0',
        n == 0 ==> decimal(n) == seq!['0'],
    decreases n,
{
    if n >= 10 {
        lemma_decimal_leading(n / 10);
        assert(decimal(n)[0] == decimal(n / 10)[0]);
    }
}

proof fn lemma_digits_end_run(s: Seq<char>, j: int, e: int)
    requires
        0 <= j <= e < s.len(),
        forall|m: int| j <= m < e ==> is_digit(#[trigger] s[m]),
        !is_digit(s[e]),
    ensures
        digits_end(s, j) == e,
    decreases e - j,
{
    if j < e {
        lemma_digits_end_run(s, j + 1, e);
    }
}

/// A file `{"max_restarts": n}` sets the restart limit to `n`, for every
/// `n` that fits in a `u32`, and changes nothing else.
pub proof fn law_file_sets_max_restarts(n: u32, c: ConfigView)
    ensures
        decode_config(single_member_file("max_restarts"@, decimal(n as nat)), c) == Some(
            ConfigView { max_restarts: Some(n), ..c },
        ),
{
    reveal_strlit("max_restarts");
    reveal_strlit("command");
    reveal_strlit("args");
    reveal_strlit("cwd");
    reveal_strlit("log_file");
    reveal_strlit("restart_delay");
    reveal_strlit("null");
    let key = "max_restarts"@;
    let d = decimal(n as nat);
    let s = single_member_file(key, d);
    lemma_decimal_digits(n as nat);
    lemma_decimal_leading(n as nat);
    assert(plain_text(key));
    let j: int = key.len() as int + 4;
    assert(s[j] == d[0]);
    assert(is_digit(d[0]));
    assert(!word_at(s, j, "null"@)) by {
        if word_at(s, j, "null"@) {
            assert(s.subrange(j, j + 4)[0] == s[j]);
        }
    }
    assert("max_restarts"@ != "command"@ && "max_restarts"@ != "args"@ && "max_restarts"@ != "cwd"@
        && "max_restarts"@ != "log_file"@);
    assert("max_restarts"@[0] != "restart_delay"@[0]);
    if n == 0 {
        assert(s[j] == '0');
        assert(parse_uint(s, j, u32::MAX as nat) == Some((0nat, j + 1)));
    } else {
        let e: int = j + d.len();
        assert forall|m: int| j <= m < e implies is_digit(#[trigger] s[m]) by {
            assert(s[m] == d[m - j]);
        }
        assert(s[e] == '}');
        lemma_digits_end_run(s, j, e);
        assert(s.subrange(j, e) =~= d);
        assert(parse_uint(s, j, u32::MAX as nat) == Some((n as nat, e)));
    }
    assert(member_value(s, j, key, c) == Some((ConfigView { max_restarts: Some(n), ..c }, j + d.len())));
    lemma_single_member(key, d, c, ConfigView { max_restarts: Some(n), ..c });
}

proof fn lemma_enable_logging_word(value: Seq<char>, flag: bool, c: ConfigView)
    requires
        value == (if flag { "true"@ } else { "false"@ }),
    ensures
        decode_config(single_member_file("enable_logging"@, value), c) == Some(
            ConfigView { enable_logging: flag, ..c },
        ),
{
    reveal_strlit("enable_logging");
    reveal_strlit("command");
    reveal_strlit("args");
    reveal_strlit("cwd");
    reveal_strlit("log_file");
    reveal_strlit("restart_delay");
    reveal_strlit("max_restarts");
    reveal_strlit("true");
    reveal_strlit("false");
    let key = "enable_logging"@;
    assert(plain_text(key));
    let j: int = key.len() as int + 4;
    assert(key.len() != "command"@.len() && key.len() != "args"@.len() && key.len() != "cwd"@.len());
    assert(key.len() != "log_file"@.len() && key.len() != "max_restarts"@.len());
    assert(key[0] != "restart_delay"@[0]);
    let s = single_member_file(key, value);
    assert(s.subrange(j, j + value.len()) =~= value);
    if flag {
        assert(word_at(s, j, "true"@));
    } else {
        assert(!word_at(s, j, "true"@)) by {
            assert(s.subrange(j, j + 4)[0] == s[j]);
            assert(s[j] == 'f');
        }
        assert(word_at(s, j, "false"@));
    }
    let c2 = ConfigView { enable_logging: flag, ..c };
    assert(member_value(s, j, key, c) == Some((c2, j + value.len())));
    lemma_single_member(key, value, c, c2);
}

/// A file `{"enable_logging": false}` turns file logging off, and one with
/// `true` turns it on; nothing else changes.
pub proof fn law_file_sets_enable_logging(c: ConfigView)
    ensures
        decode_config(single_member_file("enable_logging"@, "false"@), c) == Some(
            ConfigView { enable_logging: false, ..c },
        ),
        decode_config(single_member_file("enable_logging"@, "true"@), c) == Some(
            ConfigView { enable_logging: true, ..c },
        ),
{
    lemma_enable_logging_word("false"@, false, c);
    lemma_enable_logging_word("true"@, true, c);
}

/// A file `{"args": [a1, ..., ak]}` of plain strings sets the arguments to
/// exactly `a1, ..., ak`, in order, and changes nothing else.
pub proof fn law_file_sets_args(ts: Seq<Seq<char>>, c: ConfigView)
    requires
        forall|m: int| 0 <= m < ts.len() ==> plain_text(#[trigger] ts[m]),
    ensures
        decode_config(single_member_file("args"@, string_array_text(ts)), c) == Some(
            ConfigView { args: ts, ..c },
        ),
{
    reveal_strlit("args");
    reveal_strlit("command");
    let key = "args"@;
    assert(plain_text(key));
    let v = string_array_text(ts);
    let s = single_member_file(key, v);
    let j: int = key.len() as int + 4;
    assert(key != "command"@);
    assert(holds_at(s, j, v)) by {
        assert forall|m: int| 0 <= m < v.len() implies s[j + m] == #[trigger] v[m] by {}
    }
    lemma_parse_plain_array(s, ts, j);
    assert(member_value(s, j, key, c) == Some((ConfigView { args: ts, ..c }, j + v.len())));
    lemma_single_member(key, v, c, ConfigView { args: ts, ..c });
}

} // verus!
