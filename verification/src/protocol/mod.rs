//! The connection to a server.

pub mod client;
pub mod connection;
pub mod ssh;
pub mod types;
pub mod writer;
