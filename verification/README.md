# blockchain

A small cryptocurrency: a blockchain of fixed-size blocks chained by SHA-512 hashes, wallets
that sign transactions with Ed25519, a server node that keeps the list of connected peers, and
client nodes that agree on the blockchain with their peers.

- `src/` is the library, verified with Verus. Each public function states what it returns or
  changes in its `ensures`, over the mathematical models of the types (`Seq<BlockModel>` for a
  blockchain, `Seq<Peer>` for the peers, and so on). The byte formats are spec functions with
  proved round trips. The calls into `sha2`, `ed25519-dalek`, `chrono`, `rand` and the
  `actix-web` byte buffer stand in `bytes_utils.rs` and `primitives.rs`, behind trusted
  wrappers whose contracts say what those crates do.
- `app/` is the two programs around it: the HTTP handlers, timers and requests of the server
  and client nodes, which hold the node's state and hand the library plain values.
- `tests/` runs the library on concrete values.
