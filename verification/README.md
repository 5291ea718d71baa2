# kompose

A command-line tool that renders and exports configuration components written in
the Nickel configuration language.

- `src/` is the verified library: the syntax of `-i`/`-f` value arguments and the
  configuration fragments they become (`values`, `pattern`), the main program that
  `render` evaluates and where each rendered document is written (`render`), which
  program `export` evaluates and how its result is written (`export`, `path`),
  how errors are reported (`error`), and the language server's error responses
  (`nls`).
- `app/` holds the command-line front end: argument parsing, file-system access,
  evaluation of the configuration program and output.
- `tests/` runs the library on concrete inputs.
