# agam

The decision logic of the Agam toolchain driver (`agamc`), its diagnostics
and its source formatter, as a library verified with Verus.

- `src/format.rs`: the whitespace-stable formatter, with proofs that
  formatting is idempotent, keeps every line that has content, and leaves no
  trailing blanks or overlong blank runs.
- `src/span.rs`, `src/diagnostic.rs`, `src/report.rs`: source spans, line and
  column lookup, diagnostics and their rendering.
- `src/strset.rs`, `src/text.rs`: an ordered string set and character-level
  helpers.
- `src/driver/`: backend and toolchain selection, the doctor's readiness
  table and readiness check, build requests, artifact paths, call-cache selection and
  source annotations, the daemon status record and its incremental refresh,
  the interactive shell's commands, headless execution requests, and the
  reader of LLVM call-cache profiles.

`app/` is the command-line front end (`agamc fmt`, `agamc daemon-status`,
`agamc doctor`): it reads files, the environment and the clock, and hands
plain values to the library. `tests/` exercises the library on concrete
inputs.
