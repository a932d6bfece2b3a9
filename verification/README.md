# gt-tool

A command-line client for the Gitea release API: list releases, create one,
or attach files to one. Settings come from the command line, the
environment and `gt-tool.toml` files (see `src/config.rs`).

Layout:

- `src/` — the library, verified with Verus: configuration lookup and
  layering (`config`), the interface to the `toml` crate (`document`),
  request addresses and reply classification (`api`), the program's
  decisions (`commands`), the records of the API (`structs`), the command
  line's shape (`cli`) and string helpers (`text`).
- `app/` — the program: argument parsing with `clap`, file reading, HTTP
  with `reqwest` on `tokio`, JSON with `serde`, and printing.
- `tests/` — tests of the library.
