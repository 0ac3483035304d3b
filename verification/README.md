# codex_plus_core

The core of the FreeCodex model router, as a Verus-verified library.

- `src/` — the verified library:
  - `text` — trimming, ASCII lower-casing, search and decimal rendering over characters;
  - `json` — JSON values, member lookup and insertion;
  - `keys` — the upstream provider keys and the `export NAME=value` env-file format;
  - `router` — the free model pool, request planning, shuffling, fail-over and retry delays;
  - `session` — the per-request routing decisions and the stream relay decisions;
  - `ads` — ad validity, display text, list normalization, the search over list urls and selection;
  - `credits` — the credits state and its events, ad nonces, and client summaries;
  - `paths` — FreeCodex's directories and the edits made to Codex's own files.
- `app/` — the I/O around it (environment, files, HTTP, process-wide state).
- `tests/` — tests of the library.
