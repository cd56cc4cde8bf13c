# allroads

A quarterly roadmap planner with an SQLite store and a sync engine, written in Verus.

- `src/` is the verified library: the roadmap editing model (quarters, features, moves,
  templates, dialogs, colors), the key-loading and keychain state machines, the rows the
  roadmap store reads and writes, and the sync engine's logic — the statements it runs to apply
  incoming changes, log local ones, prune and merge snapshots — together with the logical hash
  of an org's data. Calls into `sha2`, `base64`, `chrono`, `rand` and `hex` stand behind small
  trusted wrappers in `digest.rs`, `models.rs` and `keys.rs`.
- `app/` is the program around it: the egui window, the SQLite connections, the key file and
  the system keychain, JSON files and WebSocket transport. It runs the library's statements and
  state machines and does the I/O they ask for.
- `tests/` runs the library, on its own and against real SQLite databases.
