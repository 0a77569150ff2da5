# database_ide

Backend library of a desktop PostgreSQL IDE, verified with Verus.

- `src/` — the verified library: connection input validation
  (`connections`), the error type and its messages (`error`), the credential
  store trait and its `keyring`-backed implementation (`credentials`), the
  connection service (`postgres_service`), schema metadata and lookups
  (`schema`), and the character-level text operations they rest on (`text`).
- `app/` — the I/O edge: serde forms of the library's types, PostgreSQL
  queries and the connection test, and the commands the UI bridge calls.
- `tests/` — tests of the library, run against the real `keyring` and `uuid`.
