# tickrs

Verified core of a terminal stock ticker that shows Yahoo! Finance data, with
live prices laid over it from a Databento bridge and a local quote stream.

- `src/text.rs`: text primitives (Unicode whitespace trimming, ASCII case
  folding, prefix handling, decimal rendering).
- `src/quote_stream.rs`: stream keys of symbols, which streamed updates are
  kept, and the cache of the latest update per key, with its laws.
- `src/client.rs`: Yahoo! and Databento symbol translation, request URLs,
  Databento settings and row choice, answer checking and error messages.
- `app/`: HTTP, environment, threads, sockets, JSON decoding and the
  floating-point price arithmetic, calling into the library.
- `tests/`: runtime tests of the library.
