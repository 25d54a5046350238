//! Agent protocol message types.
//!
//! The broker and the interpreter agent exchange tagged messages, carried as
//! JSON payloads inside the length-prefixed framing. The library owns the
//! schema; turning a message into its JSON bytes and back happens at the I/O
//! edge outside the library.

use vstd::prelude::*;

verus! {

/// Request sent from broker to agent.
#[derive(Debug, Clone)]
pub enum AgentRequest {
    /// Execute code in the specified interpreter; `id` is echoed back.
    Execute { id: String, interpreter: String, code: String },
    /// Graceful shutdown; no response is owed.
    Shutdown,
    /// Health check.
    Ping,
}

/// Response sent from agent to broker.
#[derive(Debug, Clone)]
pub enum AgentResponse {
    /// Agent is ready to accept requests; sent exactly once on startup.
    Ready,
    /// Completion of an `Execute`; `id` mirrors the request.
    Result { id: String, stdout: String, stderr: String, exit_code: i32 },
    /// Pong response to a health check.
    Pong,
    /// Any failure inside the agent.
    Error { message: String },
}

impl AgentResponse {
    /// Whether this is the startup `Ready` message.
    pub fn is_ready(&self) -> (r: bool)
        ensures
            r == (self is Ready),
    {
        match self {
            AgentResponse::Ready => true,
            _ => false,
        }
    }
}

} // verus!
