# filehop

The FileHop backend relays text messages and files between a user's own devices.
This crate holds its rules as a library verified with Verus; the HTTP server around it
lives in `app/`.

- `src/` — the verified library:
  - `messages` — send validation, replay of repeated sends, history and file paging,
    with the paging laws proved over a model of the message table;
  - `session` — session cookies and tokens, origin checks, credential rules, session
    lifetime;
  - `throttle` — the per-address login throttle and its invariants;
  - `files` — transfer limits, preparation and admission, the send life cycle,
    successors, upload streaming and failed uploads, reconciliation, cleanup, startup
    recovery and the recorded condition of committed files;
  - `download` — safe download names and `Content-Disposition` headers;
  - `config` — the origin check for the configured public URL;
  - `problems` — the status code and error code of every refusal;
  - `chars`, `ids` — text helpers and UUID handling.
- `tests/` — tests on concrete values, run against the real outside crates.
- `app/` — the axum/sqlx/tokio server and the command line: HTTP, SQL, the file system,
  the clock and the address conversions. The decisions it acts on come from the library;
  the SQL statements repeat some of them as conditions of their updates, so that a row
  changed in between is left alone.
