# pawchat-kv

An embedded rate limiter and `credential_version` revocation cache, verified
with Verus, and the internal HTTP bridge that exposes them.

| Module | What it holds |
|---|---|
| `window` | the sliding-window log of one key, and the laws of one attempt |
| `rate_limiter`, `limiter_laws` | `RateLimiter`, and what it promises over a whole history |
| `record` | the record kept on disk for a user, in the `postcard` encoding |
| `revocation`, `cache_laws` | `RevocationCache`, and what it promises over a history and across a restart |
| `table`, `metrics` | the table with expiries and counters that both rest on |
| `server` | how the bridge is configured, whom it lets in, what it answers |
| `store`, `clock` | what is trusted of `dashmap`, of Tokio's clock and of the system clock |
| `error` | the errors and their texts |

A moment is a number of nanoseconds since a limiter was made. Each operation
whose outcome depends on a clock stands beside one that takes the reading as an
argument and has an exact contract: `incr_and_check` beside `incr_and_check_at`,
`purge_expired` beside `purge_expired_at`, `set_cv` beside `set_cv_at`. A read of
the cache comes out the same at any moment, for its entries never expire.

Limits and windows are passed per call, on one key too. The hits of a key are
kept for the longest window asked for on it since it was last purged, and as many
of the latest as the largest limit asked for. An attempt that asks for a longer
window and a larger limit than any before it counts the hits that are still kept.

`app/` is the program: the environment, the `redb` file, the locks under which
tasks share the two structures, the purge task and the `axum` router. The cache
says what is to be written to the file; the program performs it on a blocking
task before it answers.

## Configuration of the bridge

| Variable | Default | Role |
|---|---|---|
| `PAWCHAT_KV_INTERNAL_SECRET` | none, required | secret expected as `Authorization: Bearer <secret>` |
| `PORT` | `3210` | port to listen on |
| `PAWCHAT_KV_DB_PATH` | empty | `redb` file of the cache; in memory only if empty |
| `PAWCHAT_KV_MAX_CONCURRENT_REQUESTS` | `256` | requests served at once; the surplus gets a `503` |
| `RUST_LOG` | `info` | log filter |
