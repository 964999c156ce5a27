# container_viz

A keyboard-driven terminal dashboard for several Docker hosts at once:
live container lists and stats, log tailing, and container actions with a
confirmation gate ("safe mode").

## Layout

- `src/` is the verified library (Verus). It holds the host and container
  model, the application state and everything a key press or a worker
  update does to it, the confirmation rules, the worker's connect / poll /
  back-off cycle and its requests to the daemon, stats arithmetic, log
  splitting and filtering, the command palette's scoring and ranking, and
  the texts the panels show. `src/laws.rs` states properties that span
  several operations, each proved.
- `app/` is the program around it: configuration file loading (serde and
  toml), the per-host tokio tasks that talk to the Docker daemon through
  bollard, terminal input (crossterm) and rendering (ratatui).
- `tests/` exercises the library on concrete values.

## Units

CPU figures are kept in hundredths of a percent, uptimes in seconds.
