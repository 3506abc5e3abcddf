# circle_checker

Finds event circles among Twitter accounts: each account's display name is
matched against the regular expressions of `config/filter.txt`, and the
matching accounts are printed or written as spreadsheet rows.

- `src/` is the verified library (Verus):
  - `text.rs`: decimal numerals, joining, line ends, whitespace tests;
  - `bootstrap.rs`: settings and the application keys of the secret file;
  - `circle.rs`: filter matching (through the `regex` crate), output rows,
    file names and target selection;
  - `twitter.rs`: the account state, the token file's data, the decisions
    of authentication and paging, and the pinned-tweet lookup on a page's
    HTML (through the `scraper` crate).
- `app/main.rs` is the program around it: files, the terminal, the
  network calls through `egg-mode` and `reqwest`.
- `tests/` runs the library on concrete values.
