# ferrowl

The decision logic of ferrowl, a Modbus/OCPP client and server simulator with a terminal UI,
as a library verified with Verus.

## Layout

- `src/` — the verified library. Every function states its behaviour in `requires`/`ensures`
  over spec functions and views; the laws that span several functions are public proof
  functions (`lemma_*`).
  - `cli`, `bridge` — `--module`/`--ocpp`/`--upstream` descriptors and the module specs a run
    resolves from flags and session files.
  - `config`, `convert`, `path` — config types, file formats, read ranges and file-relative
    paths.
  - `tls`, `tls_section` — TLS policies, their config-file fields, and the TLS rows of the
    setup dialogs.
  - `command`, `tabs`, `register_io`, `registers` — `:` commands, tab navigation, what `:set`
    does, write requests, and the register table's raw column.
  - `dialog`, `dialog_keys`, `help`, `path_suggest` — validators, choices, setup form, key
    routing of the dialogs, key-binding pages and path completion.
  - `backoff`, `headless`, `log_ring`, `time` — the reconnect backoff state machine, the
    headless runner's decisions, the on-screen log ring and the clock.
  - `num`, `text` — number and text helpers the rest is built on.
- `tests/` — tests of the library.
- `app/` — the command line (clap), files on disk (serde/toml/json), the filesystem and the
  async retry driver around the library.
