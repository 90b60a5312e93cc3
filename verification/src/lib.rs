//! A verified tunnel-session engine: handshake decoding, credential
//! authentication, upstream target resolution with a deployment-level
//! override, and the per-session relay state machine.
//!
//! The engine is pure logic over bytes and plain values.  The surrounding
//! transports (the inbound message channel and the outbound byte stream)
//! are driven by an unverified shell that feeds events into a [`session::Session`]
//! and performs the actions it returns.

pub mod codec;
pub mod config;
pub mod error;
pub mod gate;
pub mod resolver;
pub mod routes;
pub mod session;
