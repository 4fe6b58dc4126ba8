//! Remote addresses, the stable identity of a connection.

use vstd::prelude::*;

verus! {

/// The remote end of a connection: an IP address and a port, with the two
/// extra fields that an IPv6 socket address carries.  Two addresses are the
/// same identity exactly when every field is equal.
#[derive(Clone, Copy, Debug, PartialEq, Eq, Hash, Structural)]
pub enum PeerAddr {
    /// An IPv4 address, in host order with the first octet most significant, and a port.
    V4 { octets: u32, port: u16 },
    /// An IPv6 address, in host order with the first segment most significant,
    /// a port, the flow information and the scope identifier.
    V6 { segments: u128, port: u16, flowinfo: u32, scope_id: u32 },
}

} // verus!
