//! The logic of a remote workspace: a small set of file and command operations
//! that a client invokes on a server over one connection.

pub mod cli;
pub mod client;
pub mod config;
pub mod error;
pub mod exec;
pub mod fs_ops;
pub mod hash;
pub mod ids;
pub mod inputs;
pub mod listing;
pub mod mcp;
pub mod messages;
pub mod patch;
pub mod quote;
pub mod record;
pub mod recovery;
pub mod server;
pub mod store;
pub mod text;
pub mod transfer;
pub mod undo;
pub mod utf8;
pub mod workspace;
