# remote_terminal

A browser terminal controller for agent sessions: each project directory
under `ALLOWED_ROOT` is a task named after it, run as a `dtach` session
(running `codex`) on `/tmp/remote_terminal/{project}.sock` with a `ttyd`
terminal attached, reachable under `/term/{project}/`.

- `src/` is the verified library (Verus). It holds the service's rules:
  which names are projects and which tasks are listed, when a stored task is
  reused, how a task is drafted and its port chosen, how a runtime's health
  is classified, repaired or recorded as stopped or failed, what the
  periodic reconciliation keeps, which leftover processes are killed, how
  terminal requests are routed, what the audit log records and which of its
  rows are kept, and the settings read from the environment.
  - `text`: string functions (trim, decimal numbers, lines, paths) proved
    against specifications on `Seq<char>`.
  - `external`: the trusted calls into `regex`, `chrono` and
    `String::push`.
  - `project`, `routes`, `lifecycle`, `cleanup`, `runtime`, `logs`, `config`,
    `models`, `error`: the service's rules.
- `app/` is the executable around it: the `axum` server and its handlers, the
  SQLite store (`sqlx`), process control (`tokio::process`), websocket
  proxying, and `main`.
- `tests/` exercises the library on concrete values.
