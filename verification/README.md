# trybuild

A test harness for invoking rustc on a set of test cases and asserting that
any resulting error messages are the ones intended.

```rust
let mut t = trybuild::TestCases::new();
t.compile_fail("tests/ui/*.rs");
t.pass("tests/ui/works.rs");
```

The library under `src/` holds the harness's logic, verified with Verus:

- `normalize`, `rules`, `text`, `chars`: the diagnostic normalizer. Every
  compiler output is rendered once per normalization step; a saved `.stderr`
  snapshot that equals any of these renderings passes, and the last, most
  normalized one is what gets written.
- `runner`: which cases run, how each case's build and snapshot become an
  outcome under the `TRYBUILD` update mode, and how a suite's outcomes
  collapse into the result of a run.
- `expand`: glob expansion and the generated bin names.
- `messages`: splitting cargo's JSON messages from its other output and
  attributing diagnostics and executables to the registered files.
- `manifest`, `cargo`, `fingerprint`: the generated project's manifest, the
  cargo invocations on it (and the steps that prepare its dependencies:
  seeding or generating the lockfile, the one-time build, the
  `--keep-going` probe and the clean), and where the test binary's feature
  set is found.
- `lockfile`: when a run may hold, wait for, or take over the lockfile
  that keeps two runs from building the same project at once.
- `report`: what the terminal report says, and how it is written line by
  line in color.
- `laws`: properties of the whole, proved over the operations' contracts.

`app/` is the ordinary Rust around it: running cargo, reading and writing
files, listing glob matches, serde, and the terminal. It performs the
actions that the library's steps ask for and reports back what happened.
