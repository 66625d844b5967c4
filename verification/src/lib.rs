//! RustCoin: the logic of a proof-of-work blockchain node, with its contracts.
//!
//! - `primitives`: hashes, amounts, addresses, transactions, blocks and
//!   their canonical JSON encoding.
//! - `consensus`: difficulty adjustment, fork choice by total work, mining.
//! - `storage`: account state, the key layout of the store, and the state
//!   transition that applies a block.
//! - `mempool`: the pool of pending transactions, ranked by fee per byte.
//! - `crypto`: Ed25519 keys and signatures, addresses of public keys.
//! - `node`: configuration, chain state, and the node's decisions.
//! - `p2p`: network messages, topics, and the handling of swarm events.
//! - `rpc`: error codes and the routing of API requests.
//! - `cli`: the commands of the command line.
//! - `token`: an ERC-20 style token contract.
//! - `pairs`: association lists, used for caches and storage.
pub mod pairs;
pub mod primitives;
pub mod consensus;
pub mod storage;
pub mod mempool;
pub mod crypto;
pub mod node;
pub mod p2p;
pub mod rpc;
pub mod cli;
pub mod token;
