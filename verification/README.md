# prowl

A terminal radar for GitHub pull requests, with its logic verified by
[Verus](https://github.com/verus-lang/verus): what is fetched and listed, how
tables are laid out, what every key does and what every cell of the screen shows
is stated in contracts and proved.

- `src/` is the verified library.
  - Data: `model`, `github`, `required`, `commits`, `sections`, `demo`.
  - Rows and their tables: `prs`, `queue`, `merged`, `reviews`, `status`, `order`.
  - A refresh: `fetch`, `changes`.
  - Painting: `surface`, `table`, `table_laws`, `render`, `shipments`, `chrome`,
    `dashboard`, `caret`, `screen`.
  - Input: `term`, `nav`, `watch`, `run`, `clipboard`, `cli`.
  - `text` holds what the others need of strings.
- `tests/` runs the library on concrete values.
- `app/` is the program around it: flags, the terminal, the network, the clock.

The library meets the outside in a few wrappers, each with a contract that is
believed rather than proved: cells and text widths of `uncurses`, JSON objects of
`serde_json`, date spelling of `chrono`, and four functions on strings of the
standard library. The doc comment of each says what it claims.
