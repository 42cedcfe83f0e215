use vstd::prelude::*;

verus! {

/// The address of a peer: an IP address and a port, as a socket address
/// holds them, with the IP address as its number.
#[derive(Clone, Copy, Debug, PartialEq, Eq, Structural, Hash)]
pub enum PeerAddr {
    /// An IPv4 address and a port.
    V4 { ip4: u32, port: u16 },
    /// An IPv6 address, a port, and the flow information and scope ID that
    /// an IPv6 socket address carries.
    V6 { ip6: u128, port: u16, flowinfo: u32, scope_id: u32 },
}

} // verus!
