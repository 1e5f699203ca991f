# googlepicz

The core of a Google Photos desktop client, written in Verus and verified:

- `src/cache.rs` — the local media cache (media items, albums, album
  membership, faces, last sync time) with its referential rules, queries
  (full-text search goes through SQLite's FTS5)
  and imports; `src/cache_laws.rs` states properties across operations.
- `src/sync.rs` — what a synchronisation run records and reports page by
  page, and the retry policies of the periodic sync and the token refresh;
  `src/sync_laws.rs` holds their properties over several attempts.
- `src/auth.rs` — the credential store, token expiry checks, refresh
  scheduling and the OAuth redirect; `src/auth_laws.rs`.
- `src/packaging.rs` — installer command plans, artifact names, tool and
  result checks, versions and checksums; `src/packaging_laws.rs`.
- `src/config.rs`, `src/api.rs`, `src/faces.rs`, `src/cli.rs` — settings,
  service addresses and answers, face records, and the command-line texts.
- `src/text.rs`, `src/pattern.rs`, `src/datetime.rs`, `src/types.rs` —
  decimal text, SQL `LIKE` matching, timestamps, shared types.

`app/` is the command-line program around the library: it talks to the
service, keeps the cache in SQLite and the tokens in a file, runs the
commands of the packaging plans, and drives the sync loops.
