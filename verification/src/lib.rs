//! A registry of accepted connections for an operator console.
//!
//! The registry owns every connection together with the remote address it was
//! accepted from.  An operator lists the connections, probes them for
//! liveness, evicts the dead ones, selects one by its position and writes
//! bytes to the selected one or to all of them.  The library never touches a
//! socket itself: every operation that writes takes the write as a closure,
//! and states what it returns for whatever the closure answers.

pub mod address;
pub mod error;
pub mod transport;
pub mod registry;
pub mod prober;
pub mod broadcast;
pub mod selection;
pub mod accept;
pub mod command;
pub mod console;
