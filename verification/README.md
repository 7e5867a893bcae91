# seogi

seogi measures how an AI coding harness works: it records tool calls from
hooks, derives per-session metrics from the logs, and keeps tasks, statuses
and cycles with their flow metrics and reports.

## Layout

- `src/` is the library, written in Verus. Its functions carry
  `requires`/`ensures` contracts that Verus proves, except the trusted
  wrappers in `json.rs`, `time.rs`, `pattern.rs`, `digest.rs`, `ident.rs`
  and `text.rs` (`string_push`, `str_eq`): each of those only calls an
  outside function, and its contract, which names or states what that
  function returns (some state nothing, where the result depends on the
  clock), is believed without proof:
  - `domain/`: tasks, statuses, cycles, dependencies (cycle detection), task
    flow metrics, session metrics, log records, migration of old log entries,
    and the text of the summary, detail and cycle reports.
  - `analyzers/`: session metrics computed from log entries.
  - `workflow/`: the decisions the command workflows take between reads and
    writes of the store (cycle checks, cycle report planning).
  - `query.rs`, `listing.rs`: SQL statements and table lines.
  - `log_reader.rs`, `transcript.rs`, `metrics_files.rs`, `timing.rs`,
    `notify.rs`, `config.rs`: the pure parts of reading logs, transcripts,
    metrics files, timing files and settings.
  - `json.rs`, `time.rs`, `pattern.rs`, `digest.rs`, `ident.rs`: the few
    calls into `serde_json`, `chrono`, `regex`, `sha2` and `uuid`.
  - The public `lemma_*` proof functions state the laws of the library.
- `tests/` runs the library on concrete inputs.
- `app/` is the command-line program around the library: argument parsing,
  file and database I/O, hooks, and the statistics that use floating point.
