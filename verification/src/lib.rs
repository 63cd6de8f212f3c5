//! Core logic of a small network throughput-testing server.
//!
//! A client drives the server with one-byte commands: it can ask the server
//! to absorb a fixed-size block of bytes (to measure upload throughput), to
//! stream dummy payload frames for a requested number of milliseconds (to
//! measure download throughput), to answer a ping, or to disconnect.
//!
//! This crate holds the verified protocol logic: command classification, the
//! dispatcher that turns an inbound byte stream into enqueued burst requests
//! and replies, and the state machine of the duration-bounded payload sender.
//! The surrounding socket and thread plumbing lives outside the crate and
//! feeds these functions plain bytes and clock readings.

pub mod dispatcher;
pub mod protocol;
pub mod sender;
