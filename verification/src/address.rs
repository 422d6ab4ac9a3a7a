//! Socket addresses as plain values. Reading them from text is done by the
//! caller with `std::net`, and the results are handed to the configuration logic.

use vstd::prelude::*;

verus! {

/// An IP address: IPv4 as its 32-bit big-endian value, IPv6 as its 128-bit value.
#[derive(Clone, Copy, Debug, PartialEq, Eq, Structural)]
pub enum IpAddress {
    V4(u32),
    V6(u128),
}

/// A socket address, as `std::net::SocketAddr` holds it.
#[derive(Clone, Copy, Debug, PartialEq, Eq, Structural)]
pub enum SocketAddress {
    V4 { ipv4: u32, port: u16 },
    V6 { ipv6: u128, port: u16, flowinfo: u32, scope_id: u32 },
}

/// The socket address for an IP address and a port, as `SocketAddr::new` forms it:
/// an IPv6 address gets no flow label and no scope.
pub open spec fn socket_for(ip: IpAddress, port: u16) -> SocketAddress {
    match ip {
        IpAddress::V4(a) => SocketAddress::V4 { ipv4: a, port },
        IpAddress::V6(a) => SocketAddress::V6 { ipv6: a, port, flowinfo: 0, scope_id: 0 },
    }
}

/// Forms the socket address for an IP address and a port.
pub fn socket_address(ip: IpAddress, port: u16) -> (r: SocketAddress)
    ensures
        r == socket_for(ip, port),
{
    match ip {
        IpAddress::V4(a) => SocketAddress::V4 { ipv4: a, port },
        IpAddress::V6(a) => SocketAddress::V6 { ipv6: a, port, flowinfo: 0, scope_id: 0 },
    }
}

/// The port of a socket address.
pub open spec fn port_of(a: SocketAddress) -> u16 {
    match a {
        SocketAddress::V4 { port, .. } => port,
        SocketAddress::V6 { port, .. } => port,
    }
}

} // verus!
