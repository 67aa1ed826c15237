# cita_services

Two services of a blockchain node, as a verified library.

- The transaction service (`src/handler.rs` and `src/handler/`) decides which transactions reach the
  pool and whether a proposed block is good: signatures, chain, lifetime, duplicates, quotas and the
  black list. `src/state.rs` says what it has to do; `src/laws/` states what holds of it as a whole.
- The relay (`src/network.rs`) decides where a message between this node and the others goes.

Neither service does any I/O. Each takes a message and returns what is to be done, in order. `app/`
runs them on channels; the wire format, the pool and the links to other nodes are supplied to it.

Signatures, addresses, the cache of signature checks, worker threads and the clock come from
`cita-crypto`, `cita-types`, `lru`, `rayon` and `cita-util`. What is assumed of them stands in the doc
comments of the functions that call them, in `src/crypto.rs`, `src/sig_cache.rs`, `src/signature.rs`
and `src/clock.rs`.
