# xtr

A framed transport protocol and a compact table of typed values, written in
Verus with its behaviour stated in contracts and proved.

- `src/` is the verified library:
  - `codec` — big-endian numbers: meaning, reading, writing, round trips.
  - `buffer` — the `bytes::BytesMut` buffer as a sequence of bytes (trusted
    declarations of the calls made on it).
  - `packet` — packet types, flags, the 24-byte head (parse, write, round
    trip), packets, and the reader that cuts packets out of a byte stream.
  - `values` — the packed value table: lookups, positioned lookups, stores,
    entry iteration, the read/write traits, and the laws that relate them.
  - `lite` — a variant head that is read without validation.
  - `utils` — microsecond timestamps.
  - `client`, `server` — the decisions of the network client (what to report,
    whether to retry) and the per-session stream masks of the server.
- `app/` is ordinary Rust around it: clocks, the `tokio` codec, the
  asynchronous client and server, `f32`/`f64` values, and the C interface.
- `tests/` exercise the library.

The client sends no protocol-version packet when it connects: no packet
layout for announcing the version is defined, so `PROTO_VERSION` is only
exported for callers that agree on one of their own.

The packed value table stores an array of any length from one to 256
elements (as many as the addresses left from its start allow); an array of
one element is written as a single value and read back by either lookup.
