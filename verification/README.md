# getopt_rs

A command line option parser whose logic is proved with Verus.

Options are described by short pattern strings such as `-o=str`, `--level=int!`
or `name=pos@1`, collected in a `set::DefaultSet`, and matched against the command
line by one of three parsers:

- `parser::forward::ForwardParser` matches each argument against the options in
  the styles `-o=v`, `-o v`, `-o`, `-abc`, `-ov` and sets their values at once;
- `parser::pre::PreParser` does the same but lets an option that fails on an
  argument leave it as it was;
- `parser::delay::DelayParser` keeps the values waiting until the non-option
  arguments have been matched against the `cmd` and `pos` non-options.

## Layout

- `src/` the verified library: patterns (`pattern`, `utils`), options (`opt`,
  `nonopt`), arguments (`arg`, `text`), contexts and procs (`ctx`, `proc`), the set
  (`set`), the parsers (`parser`), help stores and builders (`help`).
- `src/parser/model.rs` states, as spec functions, the values a forward parse
  gives the options; `ForwardParser::parse` is proved to end with them.
- `tests/` the tests, run against the compiled library.
- `app/` logging set-up, the process arguments and the simple callbacks, which
  need I/O or boxed closures.

The public proof functions whose names start with `law_` state properties that
relate several operations (an alias added and removed, a reset, the forward and
backward non-option indexes, the agreement of the tolerant and the forward parse).
