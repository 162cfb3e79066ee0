# noetive

Client for the [Noetive](https://noetive.io) platform, with a verified
core. Today it covers **Semantik**, a managed semantic broker: publish
messages tagged with embedding vectors, query them with SemQL, and
subscribe to live match streams.

- `src/` is the library, verified with Verus. It holds everything the
  client decides; it does no I/O of its own.
- `app/` is the async client around it: `reqwest`, `tokio`, `serde`, and
  the environment.
- `tests/` runs the library.

## The library

| Module | What it holds |
|---|---|
| `text` | strings: comparison, white space, decimal numbers |
| `semantik::validate`, `publish`, `search`, `lint`, `metadata`, `float`, `limits` | requests and what is rejected before it is sent |
| `semantik::client`, `transport`, `version`, `defaults` | building a client; how a request is laid out and a reply sorted |
| `semantik::error`, `code`, `decode`, `headers`, `httpdate` | errors, and how one is read from a response |
| `semantik::retry`, `duration`, `clock` | when a call is retried, and after how long |
| `semantik::sse`, `sse_laws` | the event-stream scanner and what it promises of whole streams |
| `semantik::subscribe`, `subscribe_laws` | the handshake and the match stream |

Contracts are stated over views: an error by its `ErrorView`, a scanner by
the bytes and the frame in progress, a duration by its nanoseconds.
Properties that span functions are public proof functions whose names start
with `law_`.

## What is trusted

- `reqwest`: looking a header up, judging a header value, building an HTTP
  client, and the text of an HTTP error.
- The standard library: the clock, appending a character, repairing invalid UTF-8, and
  quoting a string for debugging.

Each is declared where it is used, with what is claimed of it.
