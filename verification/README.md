# vn30

Market-data ingestion for a VN30 real-time analyzer, written in Verus: the
logic is a verified library whose behaviour is stated in `requires` /
`ensures` contracts, and the input/output around it is ordinary Rust.

## Layout

- `src/` — the verified library (crate `vn30`):
  - `ieee`, `text`, `sorted_texts` — floating-point bit patterns, text
    normalisation and ordering, JSON string quoting;
  - `errors`, `timestamp`, `symbol`, `market`, `config` — the domain model:
    validated timestamps, tickers and instruments, trades and quotes, and the
    configuration rules;
  - `auth`, `subscription`, `symbol_mapper`, `parser`, `websocket` — the
    handshake, subscription bookkeeping, alias mapping and vendor messages;
  - `dedup`, `sequencer`, `stale`, `health`, `session` — duplicate
    suppression, watermark re-sequencing, frozen-data detection, connection
    liveness and the decisions of the reconnection loop.
- `tests/` — tests of the library.
- `app/` — the unverified shell: TOML and JSON decoding into the library's
  types, environment variables, the WebSocket connection and its
  reconnection loop, logging, and chrono conversions.

## Collections

The detector, the subscription set, the alias table and the re-sequencing
buffer keep their entries in `Vec`s with stated invariants rather than in
`HashMap`, `HashSet` or `BTreeMap`:

- their keys are `String` tickers, and with `String` keys Verus accepts the
  map and set calls but proves nothing about what they return (with integer
  keys it does); the vector forms carry exact contracts instead;
- the watch list of the stale-data detector holds each normalised ticker once,
  aligned with the last event time of each;
- the subscription set is a sorted vector without repeats, so membership and
  the emitted lists are stated over a sorted sequence;
- the alias table is a list of pairs in registration order, where the latest
  registration of an alias is the one that counts;
- the re-sequencing buffer is one vector in timestamp order (equal timestamps
  in arrival order), which is what the ordered map of timestamp to events
  gave.

The de-duplicator keeps its integer fingerprints in std's `HashSet` and
`VecDeque`, whose contracts vstd states.
