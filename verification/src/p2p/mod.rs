//! The peer-to-peer layer's logic: the messages nodes exchange, the gossip
//! topic of each, and what the node makes of each event of the swarm.
pub mod error;
pub mod message;
pub mod network;
