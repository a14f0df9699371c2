# orchestrator

The decision logic of the synforge build daemon as a Verus-verified library.

- `src/` holds the library. Every function there carries a `requires` /
  `ensures` contract that Verus proves; the laws that span several calls
  (settings round trips, the worker protocol, publication layout, session
  naming, polling intervals and more) are public proof functions beside the
  code they speak of. Calls into `argon2`, `sha2` and `uuid` go through small
  trusted wrappers whose contracts are documented where they stand.
- `tests/` runs the library on concrete inputs.
- `app/` holds the edges the library leaves out: file and process I/O, JSON
  conversion of runtime settings, and reading `/proc`.
