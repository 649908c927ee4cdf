# synapse

Routing services for a multi-cell deployment, with their decision logic
verified by Verus.

- `locator`: keeps the mapping from organizations (or project keys) to
  cells, loaded page by page from the control plane, with a compressed
  backup copy for when the control plane is unavailable, and answers
  lookups.
- `proxy`: matches requests against configured routes, resolves the cell of
  dynamic routes through the locator, and forwards to the upstream; in
  both directions the headers that concern one connection are dropped and
  a `Via` entry names the hop.
- `ingest_router`: routes relay requests by locale, authenticates relays by
  ed25519 signatures, splits project-config requests across cells, and
  merges their answers under deadlines.

Layout:

- `src/` is the verified library: every function carries a contract, and
  the properties that span several functions are stated as `law_*` proof
  functions. Calls into outside crates (base64, ed25519-dalek, hmac/sha2,
  url, http, zstd, flate2, moka, indexmap, getrandom, uuid) go through small
  trusted wrappers whose contracts say what is assumed of them.
- `app/` holds the parts that do I/O: the command-line entry point, the
  HTTP servers and clients, file and cloud storage, JSON and bincode
  encoding, clocks and timers.
- `tests/` exercises the library on concrete values.
