# almarjaa_network

An HTTP toolkit with Arabic and English names: methods, case-insensitive
headers, status codes and content types; a routing server with path
parameters and middleware; cookies; sessions that expire; a rate limiter;
WebSocket bookkeeping; and the model of an HTTP client (its settings, the
request it sends, its retry decisions and the response it reads).

The library in `src/` is written in Verus and every function in it is
verified against its `requires`/`ensures` contract. The laws of the library
(a header reads back what was written under any case of its name, a cookie
reads back from its own header text, a rate-limited client never exceeds its
limit and is admitted over a history exactly when fewer than the limit of its
recent requests were admitted, a clean-up keeps exactly the live sessions, a parameter segment of a
route stands for any one path segment, a request makes at most
`max_retries + 1` attempts, and more) are public proof functions next to the
code they speak of.

Layout:

- `src/lib.rs` – methods, headers, status codes, content types, time spans.
- `src/text.rs` – characters, trimming, splitting, decimal numerals, lower case.
- `src/string_map.rs` – the text-keyed map behind headers, query parameters,
  cookies, session data, rate-limit records and WebSocket connections. It is
  kept on two vectors rather than on std's `HashMap`: with `String` keys,
  vstd's specification of `HashMap` does not let Verus prove even that a key
  just inserted is found again, or that one insert into an empty map gives
  length 1.
- `src/server.rs` – requests, response builder, route matching, the server.
- `src/middleware.rs` – authentication, CORS, gzip marker, rate limiting, log lines.
- `src/cookies.rs`, `src/session.rs`, `src/websocket.rs`, `src/client.rs`.
- `src/clock.rs` – readings of the monotonic clock.
- `app/` – the I/O around the library: the network exchange (`reqwest`), the
  listener (`axum` on `tokio`), JSON bodies (`serde_json`) and request logging
  (`chrono`).
- `tests/` – tests of the library on concrete values.
