//! Transport liveness.
//!
//! A pipe transport owns one child process and its pipes. The library holds
//! the liveness state machine: a transport becomes alive on a successful
//! `Ready` handshake, a request is admitted only while it is alive, and the
//! first teardown takes the flag down for good — the flag is monotonic and is
//! never resurrected, which makes shutdown idempotent. The pipes, the child
//! and the kill itself live outside the library.

use vstd::prelude::*;

verus! {

use crate::protocol::AgentResponse;

/// Why a transport failed to start.
#[derive(Debug, Clone)]
pub enum StartupError {
    /// The child's first framed message was something other than `Ready`.
    NotReady { response: AgentResponse },
}

/// The broker's view of one transport: whether its agent is usable.
///
/// The field is private: nothing can raise the flag again once
/// [`TransportState::shutdown`] has lowered it.
#[derive(Debug, Clone, Copy)]
pub struct TransportState {
    alive: bool,
}

/// One teardown step: afterwards the flag is down, and the child is killed
/// exactly when the flag was still up. This is the relation
/// [`TransportState::shutdown`] ensures.
pub open spec fn spec_shutdown_step(pre: TransportState, post: TransportState, kill: bool) -> bool {
    !post.spec_alive() && kill == pre.spec_alive()
}

impl TransportState {
    /// Whether the agent behind this transport is taken to be usable.
    pub closed spec fn spec_alive(&self) -> bool {
        self.alive
    }

    /// Judge the child's first framed message: only `Ready` brings the
    /// transport up; any other first message is a fatal startup error and the
    /// caller kills the child.
    pub fn startup(first_message: AgentResponse) -> (r: Result<TransportState, StartupError>)
        ensures
            match first_message {
                AgentResponse::Ready => r matches Ok(t) && t.spec_alive(),
                _ => r matches Err(StartupError::NotReady { response }) && response
                    == first_message,
            },
    {
        match first_message {
            AgentResponse::Ready => Ok(TransportState { alive: true }),
            other => Err(StartupError::NotReady { response: other }),
        }
    }

    /// Whether the underlying agent process is still taken to be alive.
    pub fn is_alive(&self) -> (r: bool)
        ensures
            r == self.spec_alive(),
    {
        self.alive
    }

    /// Whether a request may be sent: a dead transport refuses it.
    pub fn may_request(&self) -> (r: bool)
        ensures
            r == self.spec_alive(),
    {
        self.alive
    }

    /// One teardown attempt. Returns whether the caller should now send the
    /// shutdown request and kill the child: true on the first attempt while
    /// the transport is alive, false ever after.
    pub fn shutdown(&mut self) -> (kill: bool)
        ensures
            spec_shutdown_step(*old(self), *final(self), kill),
    {
        let kill = self.alive;
        self.alive = false;
        kill
    }
}

/// At-most-one shutdown: of any two consecutive teardown steps on one
/// transport, only the first can kill; after a teardown the flag is down and
/// stays down, so however often shutdown is attempted, the child is killed at
/// most once.
pub proof fn lemma_shutdown_at_most_once(
    t0: TransportState,
    t1: TransportState,
    kill1: bool,
    t2: TransportState,
    kill2: bool,
)
    requires
        spec_shutdown_step(t0, t1, kill1),
        spec_shutdown_step(t1, t2, kill2),
    ensures
        !kill2,
        !t1.spec_alive(),
        !t2.spec_alive(),
{
}

} // verus!
