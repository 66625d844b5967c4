//! The command line's commands and what they compute: the node's
//! configuration from the start options, and the lines the chain and
//! transaction commands print.
pub mod commands;
pub mod text;
