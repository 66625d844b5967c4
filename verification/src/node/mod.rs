//! The node: its configuration, its shared chain state, and the decisions
//! its loops take on mined blocks and on what the network brings.
pub mod config;
pub mod error;
pub mod events;
pub mod state;
