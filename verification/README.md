# interlinked

A link and note shortener whose submissions are gated by a proof of work: a client must find a
challenge whose SHA-256 hash, read as text, begins with as many `0` characters as the server's
difficulty asks for.

- `src/` is the verified library: the proof-of-work rule and solver (`proof_of_work`), the
  requests that carry records (`new_object_schemes`), the server's decisions on submissions,
  lookups and replies (`server`), its settings (`config`), the client's URLs and texts
  (`client`), record types and routes (`routes`), decimal numbers and text helpers (`text`),
  and URL parsing (`urls`).
- `app/` runs the server (HTTP routes, SQLite database, object store) and the command-line
  client around the library; the program started as `itlkd` is the client, under any other
  name it is the server.
- `tests/` exercise the library on concrete values.
