//! Core of a publish/subscribe messaging client that speaks a line-oriented,
//! `\r\n`-terminated wire protocol over a single connection.
//!
//! The crate verifies the connection multiplexer: the framed codec
//! (parsing server frames out of a streaming byte buffer and emitting client
//! frames), the subscription registry that routes inbound messages to
//! per-subscription delivery endpoints, and the event-loop step functions
//! that interleave application commands with server frames.  Asynchronous
//! I/O, TLS upgrades and task plumbing live outside this crate and drive
//! these verified functions.

pub mod digits;
pub mod grammar;
pub mod info;
pub mod connect;
pub mod codec;
pub mod message;
pub mod registry;
pub mod dispatch;
pub mod error;
pub mod address;
