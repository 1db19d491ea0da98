//! Client-side engine for a line-oriented, IRC-derived chat protocol.
//!
//! The engine turns a raw byte stream into structured messages (`irc`,
//! `decoder`), routes them to typed subscribers (`messages`, `dispatcher`),
//! gates outgoing commands through a token bucket (`rate_limit`, `encoder`),
//! and tracks the connection lifecycle (`runner`).

pub mod decoder;
pub mod dispatcher;
pub mod encoder;
pub mod irc;
pub mod messages;
pub mod rate_limit;
pub mod runner;
