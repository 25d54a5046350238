//! Core of a broker that exposes sandboxed code-execution environments over a
//! request/response tool protocol.
//!
//! The library holds the verified session-lifecycle and multiplexing engine:
//! the length-prefixed framing codec, the agent protocol schema, environment
//! configuration and its merge rules, the session registry with affinity and
//! expiry, the transport liveness state machine, and output formatting for the
//! client. Process management, pipes, timers and the protocol server wire this
//! core up from the outside and hand it plain values.

pub mod backend;
pub mod config;
pub mod dispatch;
pub mod framing;
pub mod output;
pub mod protocol;
pub mod session;
pub mod text;
pub mod transport;
