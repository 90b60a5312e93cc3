//! The error taxonomy of the tunnel engine.  Every failure is fatal to its
//! session; none is retried internally.

use vstd::prelude::*;

verus! {

/// Which of the two transports of a session an I/O failure originated from.
#[derive(Clone, Copy, Debug, PartialEq, Eq, Structural)]
pub enum Endpoint {
    /// The inbound message-oriented transport.
    Inbound,
    /// The outbound byte-stream transport.
    Outbound,
}

/// The ways a tunnel session (or its deployment configuration) can fail.
#[derive(Clone, Copy, Debug, PartialEq, Eq, Structural)]
pub enum SessionError {
    /// The handshake bytes were malformed or truncated; the inbound side is
    /// closed and no outbound connection is ever attempted.
    Decode,
    /// The handshake credential did not match the configured one; handled
    /// exactly like `Decode` so that probing clients cannot tell the two
    /// apart.
    Auth,
    /// A configured override address fails the `host:port` shape rule; raised
    /// at bind time, never during a session.
    Config,
    /// Opening the outbound connection failed.
    UpstreamConnect,
    /// A read or write failed after relaying began, tagged with the endpoint
    /// it came from.
    RelayIo(Endpoint),
}

} // verus!
