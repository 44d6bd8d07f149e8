# mangatracker

A small self-hosted server that tracks a personal manga collection: series with
their covers and volume counts, and which volumes are owned.

- `src/` is the verified library. Every operation that talks to the SQLite
  database is a state machine: it names the next request to perform
  (`protocol::Action`), takes the answer (`protocol::Reply`), and finishes with
  the operation's result. The contracts state each step exactly; `laws.rs`
  proves properties of whole runs (which volume rows a count change writes,
  when an id or a stored volume is reused, which cover is picked, that every
  cached volume stays under its own number). `tables.rs` models
  what the database does with each request, and `table_laws.rs` proves what
  runs do to the tables: a count change keeps a series' volume rows exactly
  `1..=count`, whatever fails; a second `save` or `init` changes nothing.
  `cover.rs`, `text.rs` and `mangadex.rs` hold the rest: the cover file search
  (one existence check per candidate name) and the choice of a MangaDex cover
  among search results.
- `app/` is the program: the HTTP routes (axum), the SQLite connection
  (rusqlite) that performs the requests, the MangaDex HTTP call (reqwest), the
  JSON forms of the types, and the price bounds, which work on floats.
- `tests/` runs the operations against an in-memory database.
