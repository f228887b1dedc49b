//! The identity of a connection.

use vstd::prelude::*;

verus! {

/// The address of the far end of a connection: an internet address and a
/// port. It identifies a live connection, and is the key under which the
/// registry finds a client.
#[derive(Clone, Copy, Debug, PartialEq, Eq, Hash, Structural)]
pub enum PeerAddress {
    /// An IPv4 address, its four octets read as one big-endian number, and a
    /// port.
    V4 { ipv4: u32, port: u16 },
    /// An IPv6 address, its sixteen octets read as one big-endian number, a
    /// port, the flow information and the scope.
    V6 { ipv6: u128, port: u16, flowinfo: u32, scope_id: u32 },
}

} // verus!
