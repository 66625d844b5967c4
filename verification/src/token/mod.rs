//! An ERC-20 style token contract, over the key/value storage that the
//! node's contract host gives it.
//!
//! Balances are stored under `balance:<address>`, allowances under
//! `allowance:<owner>:<spender>`, both as eight little-endian bytes; a
//! missing or malformed value reads as 0.
pub mod contract;
pub mod storage;
