# torrust_actix

The core of a BitTorrent tracker, written in Verus: every function under
`src/` carries a contract that Verus proves.

- `src/udp/` — the BEP 15 UDP protocol: requests and responses as bytes
  (`request`, `response`, with round-trip laws), the Simple Proxy Protocol
  header (`udp`), connection ids keyed with HMAC-SHA256 (`server`), the
  access checks and answers of announces and scrapes (`server`, `announce`),
  and what a worker decides per datagram (`parse_pool`).
- `src/tracker_objects/` — the tracker held in memory: torrents and peers,
  white/black lists and keys, pending updates and their shadow, users and
  statistics. Each operation is stated over `TrackerModel`, the tracker as
  plain maps; `laws` states what holds across operations, and `counts` that
  every torrent's seeders and leechers stay the numbers of its seeding and
  leeching peers.
- `src/tracker_channels/` — the stores owned by actor tasks: each `handle`
  answers one request and says how the store changes.
- `src/tracker/` — the tracker type, its model, and the maps keyed by
  20-byte hashes; `src/tracker/types/` holds the queue of torrent updates.
- `src/codec.rs`, `src/net.rs`, `src/common.rs`, `src/udp_common.rs` —
  big-endian reading and writing, addresses, peers and users, and the
  helpers for clocks and short integer encodings.

`app/` holds what runs around the core and is not verified: sockets and
receive loops, the worker pool, the actor tasks, JSON forms of the core's
values, error texts and tracing. `tests/` runs the library on concrete
values.
