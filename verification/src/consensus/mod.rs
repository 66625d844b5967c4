//! Proof-of-work consensus: difficulty adjustment, fork choice by total
//! work, and the miner.
pub mod difficulty;
pub mod error;
pub mod fork_choice;
pub mod miner;
