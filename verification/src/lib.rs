//! Core of a multi-user chat service: the wire codec, the access table, the
//! shared directory of users and sessions, and the handlers and connection
//! steps built on them. Everything here is a plain function on plain values;
//! sockets, queues and timers belong to the program that drives it.

pub mod assoc;
pub mod bytes;
pub mod client;
pub mod directory;
pub mod handles;
pub mod primitives;
pub mod protocol;
pub mod server;
pub mod session;
pub mod text;
pub mod user;
