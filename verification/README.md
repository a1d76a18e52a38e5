# rem-extract

Extracts a selected piece of Rust code into a new function. The library in
`src/` holds the logic, verified with Verus:

- `text`: characters, UTF-8 widths, line splitting as `str::lines` does it,
  Unicode whitespace and trimming.
- `rust_analyzer`: byte offsets (`TextSize`) and ordered ranges (`TextRange`).
- `range_extraction`: cursors, the checks on a selection, the byte offsets a
  cursor names, and the trimming of a selected range.
- `extraction`: the checks on a selection and the parse of the source with `syn`.
- `assist`: the selection as byte offsets for rust-analyzer's "Extract into
  function" assist, the nearest manifest directory of a file, the choice of
  that assist, the application of its edit to the source text, the renaming
  of the new function and the method that encloses a selection.
- `splice`: the call that takes the place of the extracted lines.
- `extract_tests`: the comparison of two files by syntax tree and the tally
  of a test run.
- `syntax`: the calls into `syn`.

`app/` is the command line tool around it: reading and writing files,
looking for `Cargo.toml` files, loading a workspace into rust-analyzer and
asking it for the assist, formatting with `rustfmt`, and the timed,
coloured test run over the example files. Its `extract` command turns the
two cursors into a trimmed byte range and extracts it with rust-analyzer.
