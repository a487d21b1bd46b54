//! The binary framing protocol.

pub mod kind;
pub mod message;
pub mod codec;
pub mod reader;
