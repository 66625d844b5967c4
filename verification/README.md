# rustcoin

The logic of a small proof-of-work blockchain node, verified with Verus.

- `src/` is the verified library: primitives (hashes, amounts, addresses,
  transactions, blocks and their JSON text), consensus (difficulty, fork
  choice by total work, mining), the state transition that applies blocks
  to accounts, the transaction pool, Ed25519 keys and addresses, the
  node's decisions, the network's messages and event handling, the RPC
  routing, the command line's commands, and an ERC-20 style token
  contract. Hash functions, codecs, signatures and the pool's concurrent
  map are called in their crates behind small trusted functions whose
  contracts say what the library relies on.
- `app/` is the program around it: the command line, the RocksDB store,
  the libp2p network, the HTTP server and the node's async loops. It
  hands the library plain values and acts on what the library decides.
- `tests/` runs the library on concrete values.
