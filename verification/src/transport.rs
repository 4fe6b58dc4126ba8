//! What a non-blocking write on a connection can come to, and the payload of
//! a liveness probe.

use vstd::prelude::*;

verus! {

/// The result of one non-blocking write attempt.
#[derive(Clone, Copy, Debug, PartialEq, Eq, Structural)]
pub enum WriteOutcome {
    /// The transport took the bytes.
    Written,
    /// The transport cannot take bytes right now.
    WouldBlock,
    /// The transport reported a hard error, such as a broken pipe or a reset.
    Failed,
}

impl WriteOutcome {
    /// A peer counts as alive unless the write met a hard error.  A write that
    /// cannot proceed right now proves nothing about the peer, so it does not
    /// count against it.
    pub open spec fn is_alive(self) -> bool {
        self != WriteOutcome::Failed
    }

    /// Bytes count as delivered only when the transport took them.
    pub open spec fn is_delivered(self) -> bool {
        self == WriteOutcome::Written
    }

    /// Whether the outcome leaves the peer counted as alive.
    pub fn alive(self) -> (b: bool)
        ensures
            b == self.is_alive(),
    {
        match self {
            WriteOutcome::Failed => false,
            _ => true,
        }
    }

    /// Whether the transport took the bytes.
    pub fn delivered(self) -> (b: bool)
        ensures
            b == self.is_delivered(),
    {
        match self {
            WriteOutcome::Written => true,
            _ => false,
        }
    }
}

/// The bytes of a liveness probe: the ASCII text `Hello, are you there?`.
pub const PROBE: [u8; 21] = [
    72, 101, 108, 108, 111, 44, 32, 97, 114, 101, 32, 121, 111, 117, 32, 116, 104, 101, 114, 101, 63,
];

/// The probe payload as the slice that is handed to the transport.
pub open spec fn probe_payload() -> &'static [u8] {
    vstd::array::spec_array_as_slice(&PROBE)
}

/// The probe payload.
pub fn probe() -> (payload: &'static [u8])
    ensures
        payload == probe_payload(),
        payload@ == PROBE@,
{
    let payload: &'static [u8] = &PROBE;
    payload
}

/// The slice that holds exactly `bytes`.
pub open spec fn payload(bytes: Seq<u8>) -> &'static [u8] {
    choose|p: &'static [u8]| p@ == bytes
}

/// A slice is the payload of what it holds.
pub proof fn lemma_payload(p: &[u8])
    ensures
        payload(p@) == p,
{
    assert(payload(p@)@ == p@);
}

} // verus!
