# mso

A process supervisor: `mso run` hands a command to a background daemon,
which spawns it, captures its output into an SQLite log store, samples its
resource use, restarts it by policy or after failed health checks, and
serves Prometheus metrics; `mso view` is a terminal dashboard over the
daemon's socket.

## Layout

- `src/` — the verified library (Verus). Each module states its behaviour
  in `requires`/`ensures` over spec models and proves it:
  - `protocol`, `wire` — the messages and their socket framing;
  - `app`, `view`, `ansi`, `theme` — the dashboard's state machine, the
    texts and rows it shows, log colouring, and formatting;
  - `daemon`, `listener`, `telemetry`, `logdb` — the daemon's decisions,
    request handling, `/proc` parsing and the log store;
  - `client`, `config`, `ids` — the command-line client's decisions,
    configuration and paths, and process identities as text;
  - `scan`, `text`, `vecs` — string and vector helpers;
  - `laws` — properties that span calls.
- `app/` — the executable around the library: command line, sockets,
  child processes, timers, terminal drawing, serde forms of the messages.
- `tests/` — tests of the library.
