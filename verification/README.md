# areum-tools

Three small command-line tools for agents, with their logic verified by
Verus:

- `hello` — a greeting.
- `discord` — send, read and wait for Discord channel messages, and set
  up the config (`init`). The library also holds the rules of the
  human-in-the-loop `ask` flow (creation steps, custom ids, the ask
  store's transitions, interaction routing, expiry retries) and the daemon's gateway-loop decisions, which
  the program does not wire in.
- `kanban` — a local SQLite work board: projects, listing, showing,
  claiming, releasing, assigning, re-prioritizing and moving items. The
  `add` and `done` commands answer "not implemented yet"; the library
  already holds their rules (`board::new_item`, `board::mark_done`).

## Layout

- `src/` — the verified library. `text.rs` holds shared string facts
  (decimal rendering, trimming, lexicographic order); `paths.rs` builds
  filesystem paths. `discord/` and `kanban/` hold each tool's rules, with
  contracts on every public function and the laws of each tool stated as
  public proof functions (for instance `kanban::board` proves that every
  transition keeps the row invariant and that releasing a claim undoes it,
  and `kanban::time` proves that canonical timestamps sort in time order).
- `tests/` — tests run against the compiled library.
- `app/` — the programs around the library: argument parsing, HTTP,
  SQLite, the filesystem and the JSON envelope. The first argument selects
  the tool: `areum-tools kanban list --json`.
