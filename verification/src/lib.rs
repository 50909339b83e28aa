//! A client-side engine for a remote database protocol: a binary wire codec
//! for a schema-less tuple format, a schema cache keyed by a server-advertised
//! version counter, a request multiplexer that correlates responses to
//! outstanding requests by id, a connection lifecycle state machine with
//! reconnection policy, and a typed facade over remote spaces and indexes.
//!
//! The engine is event-driven: callers submit requests and obtain a
//! correlation id; a driver feeds transport events (frames, errors, timer
//! ticks) into the connection, which resolves each outstanding request
//! exactly once with a result, a timeout, or a connection-loss error.

use vstd::prelude::*;

pub mod value;
pub mod codec;
pub mod frame;
pub mod mux;
pub mod schema;
pub mod protocol;
pub mod conn;
pub mod space;

verus! {

/// The error taxonomy of the engine.
///
/// A schema lookup miss is not an error: it is reported as an empty result.
#[derive(PartialEq, Eq, Structural, Debug)]
pub enum Error {
    /// A malformed or truncated frame; fatal to the current connection.
    Protocol,
    /// An error code decoded from a well-formed response; local to one request.
    Server(u64),
    /// The caller's deadline elapsed before a response arrived.
    Timeout,
    /// The connection left the ready state while the request was outstanding,
    /// or a submission was made while the connection was down.
    ConnectionLost,
    /// The connection was explicitly shut down; submissions fail immediately.
    ConnectionClosed,
}

} // verus!
