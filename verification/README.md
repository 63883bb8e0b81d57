# external_types_cli

The decision logic of `cargo check-external-types`, verified with Verus.

- `src/` is the verified library: output formats (`output_format`), the
  model of `cargo metadata` (`model`), per-package decisions (`package`),
  configuration sources (`config`), workspace ordering (`workspace`),
  the Markdown report (`report`), command-line options (`args`), the run
  protocol (`run`), string helpers (`text`) and the sample derives
  (`sample_derives`).
- `app/` is the command-line front end: argument parsing, `cargo metadata`,
  rustdoc and the type visitor, printing. It follows the run protocol of
  `run::Run`: it performs each action the run asks for and reports back.
- `tests/` exercises the library on concrete values.
