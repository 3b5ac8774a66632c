# forge_gateway

Token authentication, rate limiting and session renewal for a web gateway in
front of a code-execution service, written in Verus. The library's functions
carry contracts that Verus proves, except for a few small trusted wrappers
around outside calls (UUIDs, random characters, the clock, URL query
decoding, `chrono` date text, `Path::parent`, `String::push`), marked
`#[verifier::external_body]`, whose contracts are taken on trust.

## Layout

- `src/` — the verified library.
  - `security`, `security_laws`: secure tokens (issue, validate, refresh,
    revoke, clean up) under a per-client rate limit, and what holds of them
    over several operations.
  - `token_manager`: the basic one-hour token manager with permissions.
  - `token_renewal`: sessions that renew tokens shortly before they expire.
  - `rate_limiting`, `mock_auth`: sliding-window rate limits per address and
    per token, and a stand-in authentication system.
  - `auth_middleware`, `auth_handlers`, `static_auth`, `websocket`: the
    decisions and answers of the HTTP and WebSocket endpoints.
  - `url_token`, `url_token_store`, `url_token_service`: URL tokens kept in a
    repository.
  - `request_monitor`: the request log, request counters and open
    connections.
  - `ids`, `clock`, `text`, `keyed`, `filters`: UUIDs, clock readings, text
    helpers and facts about keyed sequences.
- `tests/` — tests of the library on concrete values.
- `app/` — the HTTP server around the library (actix-web).

Times are milliseconds since the Unix epoch; every operation that reads the
clock has a variant ending in `_at` that takes the time as an argument.
