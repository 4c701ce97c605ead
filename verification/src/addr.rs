//! Peer socket addresses as plain values.

use vstd::prelude::*;

verus! {

/// The address a datagram came from or goes to. Two addresses are equal
/// exactly when all their parts are, as for a socket address.
#[derive(PartialEq, Eq, Structural, Debug, Clone, Copy, Hash)]
pub enum PeerAddr {
    /// An IPv4 address (the four octets, most significant first) and a port.
    V4 { ip: u32, port: u16 },
    /// An IPv6 address (the sixteen octets, most significant first), a port,
    /// the flow information and the scope id.
    V6 { ip: u128, port: u16, flowinfo: u32, scope_id: u32 },
}

impl PeerAddr {
    /// The port of an address.
    pub open spec fn spec_port(self) -> u16 {
        match self {
            PeerAddr::V4 { port, .. } => port,
            PeerAddr::V6 { port, .. } => port,
        }
    }

    /// The port of this address.
    pub fn port(&self) -> (p: u16)
        ensures
            p == self.spec_port(),
    {
        match self {
            PeerAddr::V4 { port, .. } => *port,
            PeerAddr::V6 { port, .. } => *port,
        }
    }

    /// Whether two addresses are the same.
    pub fn same(&self, other: &PeerAddr) -> (b: bool)
        ensures
            b == (*self == *other),
    {
        *self == *other
    }
}

} // verus!
