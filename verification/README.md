# openshell_providers

Credential handling for sandbox providers, verified with Verus.

- `src/token_cache.rs` — the token cache as a state machine: every decision
  (serve a cached token, store a fetched one, pick the tokens due for a
  background refresh, the refresh interval) takes the clock reading as an
  argument; laws about serving, expiry and refresh are proved there.
- `src/database.rs`, `src/secret_store.rs` — the secret store interface and
  the in-memory store over a provider record's credentials.
- `src/runtime.rs` — runtime tokens and their errors.
- `src/vertex.rs` — the Vertex AI token exchange (request, status, answer)
  and provider discovery (choice of the ADC source, the additions to the
  discovered record).
- `src/oauth_intercept.rs` — recognising and answering the Google OAuth
  token exchange inside the sandbox.
- `src/http_status.rs` — rendering an HTTP status with its standard
  reason phrase, looked up in the `http` crate.
- `src/name_table.rs`, `src/text.rs` — a duplicate-free name table and
  string helpers.
- `app/` — the asynchronous runtime around the library: the token cache
  service with its background task, the HTTP calls of the Vertex provider,
  JSON and display forms of the library's types, logging.
