//! Where the locker service listens and where its clients connect.
use vstd::prelude::*;

verus! {

/// The IPv6 loopback address `::1`, as a 128-bit number.
pub const IPV6_LOOPBACK: u128 = 1;

/// The IPv4 loopback address `127.0.0.1`, as a 32-bit number.
pub const IPV4_LOOPBACK: u32 = 0x7f00_0001;

/// An internet socket address, each part held as a plain number.
#[allow(inconsistent_fields)]
#[derive(Clone, Copy, Debug, PartialEq, Eq, Structural)]
pub enum SocketAddress {
    /// An IPv6 address with its port, flow information and scope.
    V6 { ip: u128, port: u16, flowinfo: u32, scope_id: u32 },
    /// An IPv4 address with its port.
    V4 { ip: u32, port: u16 },
}

/// The loopback socket addresses for `port`: IPv6 first, then IPv4.
pub open spec fn loopback_addresses(port: u16) -> Seq<SocketAddress> {
    seq![
        SocketAddress::V6 { ip: IPV6_LOOPBACK, port: port, flowinfo: 0, scope_id: 0 },
        SocketAddress::V4 { ip: IPV4_LOOPBACK, port: port },
    ]
}

/// The addresses at which the locker service listens on `port`, and at which
/// its clients reach it: the IPv6 loopback address, then the IPv4 one, both
/// on `port` (with no flow information and no scope for IPv6).
pub fn localhost(port: u16) -> (addrs: [SocketAddress; 2])
    ensures
        addrs@ == loopback_addresses(port),
        addrs[0] == (SocketAddress::V6 { ip: IPV6_LOOPBACK, port: port, flowinfo: 0, scope_id: 0 }),
        addrs[1] == (SocketAddress::V4 { ip: IPV4_LOOPBACK, port: port }),
{
    let addrs = [
        SocketAddress::V6 { ip: IPV6_LOOPBACK, port, flowinfo: 0, scope_id: 0 },
        SocketAddress::V4 { ip: IPV4_LOOPBACK, port },
    ];
    assert(addrs@ =~= loopback_addresses(port));
    addrs
}

/// Both loopback addresses carry the port they were asked for: IPv6 `::1`
/// first, then IPv4 `127.0.0.1`, for every port.
pub proof fn lemma_loopback_on_port(p: u16)
    ensures
        loopback_addresses(p).len() == 2,
        loopback_addresses(p)[0] matches SocketAddress::V6 { ip, port, .. } && ip == 1 && port == p,
        loopback_addresses(p)[1] matches SocketAddress::V4 { ip, port } && ip == 0x7f00_0001 && port == p,
{
}

} // verus!
