//! The text form of commands, responses and notifications.

pub mod command;
pub mod decoder;
pub mod escape;
pub mod number;
pub mod properties;
pub mod text;

pub use command::Command;
pub use decoder::{Decode, DecodeCustomInto, DecodeInto, Decoder};
pub use properties::{Properties, Property};
