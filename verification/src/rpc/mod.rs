//! The RPC layer's logic: error codes, the response types, and the
//! routing of JSON-RPC methods and REST lookups.
pub mod dispatch;
pub mod error;
pub mod types;
