//! A client of the TeamSpeak query interface.
//!
//! The crate holds what such a client decides and computes: how commands are
//! written and responses and notifications are read, which host keys are
//! accepted, how responses are paired with commands, and how bytes pass through
//! an SSH session. It does no I/O of its own.

pub mod definitions;
pub mod error;
pub mod event;
pub mod parser;
pub mod protocol;

pub use event::Event;
pub use protocol::client::HostKeyVerification;
