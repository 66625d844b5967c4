//! Account state, the key layout of the store, and the state transition
//! that applies a block to the accounts.
pub mod account;
pub mod error;
pub mod keys;
pub mod state_machine;
