//! The accept loop as a state machine.
//!
//! The loop binds one listening socket and then hands every connection it
//! accepts to the registry.  Binding and accepting wait on the network and
//! are done by the caller; this module decides what each result leads to.

use vstd::prelude::*;
use crate::address::PeerAddr;
use crate::error::ConsoleError;
use crate::registry::{Entry, Registry};

verus! {

/// Where the accept loop stands.
#[derive(Clone, Copy, Debug, PartialEq, Eq, Structural)]
pub enum AcceptState {
    /// Nothing is bound yet.
    Idle,
    /// The listening socket is bound and connections are accepted.
    Listening,
    /// The listening socket could not be bound.  The loop has ended.
    Failed,
}

/// What the caller reports to the loop.
pub enum AcceptEvent<H> {
    /// The listening socket was bound.
    Bound,
    /// The listening socket could not be bound.
    BindFailed,
    /// A connection was accepted from the given address.
    Accepted(H, PeerAddr),
}

/// What the caller does next.
#[derive(Clone, Copy, Debug, PartialEq, Eq, Structural)]
pub enum AcceptAction {
    /// Bind the listening socket.
    Bind,
    /// Wait for the next connection.
    AwaitConnection,
    /// Report the failure to whoever supervises the loop, once, and end.
    Surface(ConsoleError),
    /// Do nothing more: the loop has ended.
    Stop,
}

/// The state that follows `state` on `event`, and what is to be done next.
/// An event that does not belong to the state changes nothing, and the action
/// that the state was waiting for is asked for again.
pub open spec fn transition<H>(state: AcceptState, event: AcceptEvent<H>) -> (
    AcceptState,
    AcceptAction,
) {
    match (state, event) {
        (AcceptState::Idle, AcceptEvent::Bound) => (
            AcceptState::Listening,
            AcceptAction::AwaitConnection,
        ),
        (AcceptState::Idle, AcceptEvent::BindFailed) => (
            AcceptState::Failed,
            AcceptAction::Surface(ConsoleError::BindFailure),
        ),
        (AcceptState::Idle, AcceptEvent::Accepted(_, _)) => (AcceptState::Idle, AcceptAction::Bind),
        (AcceptState::Listening, _) => (AcceptState::Listening, AcceptAction::AwaitConnection),
        (AcceptState::Failed, _) => (AcceptState::Failed, AcceptAction::Stop),
    }
}

/// The table after `event` arrived in `state`: a connection that is accepted
/// while the loop listens is appended; nothing else changes the table.
pub open spec fn admitted<H>(
    entries: Seq<Entry<H>>,
    state: AcceptState,
    event: AcceptEvent<H>,
) -> Seq<Entry<H>> {
    match (state, event) {
        (AcceptState::Listening, AcceptEvent::Accepted(handle, addr)) => entries.push(
            Entry { handle, addr },
        ),
        _ => entries,
    }
}

/// The state in which the loop starts, and the first thing to do.
pub fn accept_start() -> (first: (AcceptState, AcceptAction))
    ensures
        first == (AcceptState::Idle, AcceptAction::Bind),
{
    (AcceptState::Idle, AcceptAction::Bind)
}

/// Takes one event: moves the loop to its next state, hands an accepted
/// connection to the registry, and says what is to be done next.  A
/// connection that arrives while the loop does not listen is dropped.
pub fn accept_step<H>(state: AcceptState, event: AcceptEvent<H>, registry: &mut Registry<H>) -> (next:
    (AcceptState, AcceptAction))
    ensures
        next == transition(state, event),
        final(registry)@ == admitted(old(registry)@, state, event),
{
    match state {
        AcceptState::Idle => match event {
            AcceptEvent::Bound => (AcceptState::Listening, AcceptAction::AwaitConnection),
            AcceptEvent::BindFailed => (
                AcceptState::Failed,
                AcceptAction::Surface(ConsoleError::BindFailure),
            ),
            AcceptEvent::Accepted(_, _) => (AcceptState::Idle, AcceptAction::Bind),
        },
        AcceptState::Listening => {
            match event {
                AcceptEvent::Accepted(handle, addr) => {
                    registry.insert(handle, addr);
                },
                _ => {},
            }
            (AcceptState::Listening, AcceptAction::AwaitConnection)
        },
        AcceptState::Failed => (AcceptState::Failed, AcceptAction::Stop),
    }
}

} // verus!
