//! Core blockchain types shared by every other module.
pub mod block;
pub mod digest;
pub mod error;
pub mod hash;
pub mod transaction;
pub mod json;

pub mod types;
