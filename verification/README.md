# fluxion_daemon

A process supervisor that daemonizes itself and keeps one child process
running: it starts the configured command, restarts it after each exit
following a delay, stops at an optional restart limit, and logs every step with
a timestamp to the console and to a log file.

## Layout

- `src/` — the library, verified with Verus.
  - `text.rs` — decimal numerals, unsigned-integer parsing, whitespace
    splitting and joining, each proved against a specification over `Seq<char>`.
  - `config.rs` — the configuration, its defaults and its validation.
  - `cli.rs` — reading the command line into a configuration, including
    `-c/--config` files, whose text the caller reads and hands over.
  - `config_file.rs` — the JSON configuration file: its grammar as spec
    functions and a reader proved to follow it.
  - `error.rs` — the error type and its messages.
  - `logging.rs` — log lines, console colours and log-file lines.
  - `directive.rs` — operations, outcomes and directives exchanged with the caller.
  - `process.rs` — the supervisor as a state machine.
  - `daemon.rs` — daemonization as a state machine (forks, session,
    `/dev/null` and `/tmp/fluxion-daemon.out`/`.err` as standard streams, the
    process id in `/tmp/fluxion-daemon.pid`), handing over to the supervisor;
    graceful stop and restart on request.
  - `laws.rs` — properties that span several steps (restart limit, restart
    counting, restarting after exits, shutdown, daemonization).
- `app/` — the program: argument, file and environment reading, signal
  handling (SIGINT/SIGTERM stop, SIGHUP restart), system calls (`fork`,
  `setsid`, `chdir`, `dup2`, `kill`), child processes, sleeping and writing
  logs, driven by the library's directives.
- `tests/` — tests of the library.
