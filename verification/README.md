# namid

Batch rename files to a clean `Title - Name.ext` format, from a one-shot
command line or an interactive terminal wizard.

The renaming logic is a Verus library whose behaviour is stated in contracts
and proved:

- `src/clean.rs` — stripping quality and language tags from a name's end.
- `src/rename.rs` — the plan: prefix, suffix and tags stripped, separators
  normalised, collisions (case-insensitive) skipped or auto-numbered.
- `src/discover.rs` — which entries of a folder a run renames, sorted.
- `src/execute.rs` — applying a plan and counting what happened.
- `src/config.rs` — options and their parsing (extensions, `~`).
- `src/wizard.rs` — the wizard as a state machine: key in, new state and
  the work left to the caller out.
- `src/report.rs`, `src/ui_text.rs` — the texts the two front ends show.
- `src/text.rs`, `src/path.rs`, `src/order.rs` — characters, paths, order.

`app/` is the program around it: argument parsing, the file system, the
terminal, and the worker thread that renames.
