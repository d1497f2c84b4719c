//! Socket addresses as plain values.

use vstd::prelude::*;

verus! {

/// An IP address: four octets for IPv4, sixteen for IPv6.
#[derive(Clone, Copy, Debug, PartialEq, Eq)]
pub enum HostAddr {
    V4([u8; 4]),
    V6([u8; 16]),
}

/// An IP address and a port.
#[derive(Clone, Copy, Debug, PartialEq, Eq)]
pub struct SockAddr {
    pub host: HostAddr,
    pub port: u16,
}

/// Whether smoltcp counts `host` as unspecified: an IPv4 address whose first
/// octet is 0, or the all-zero IPv6 address.
pub open spec fn host_is_unspecified(host: HostAddr) -> bool {
    match host {
        HostAddr::V4(o) => o@[0] == 0,
        HostAddr::V6(o) => forall|i: int| 0 <= i < 16 ==> o@[i] == 0,
    }
}

/// The IPv4 loopback address 127.0.0.1 with the given port.
pub fn loopback_v4(port: u16) -> (a: SockAddr)
    ensures
        a == (SockAddr { host: HostAddr::V4([127u8, 0u8, 0u8, 1u8]), port }),
{
    SockAddr { host: HostAddr::V4([127u8, 0u8, 0u8, 1u8]), port }
}

} // verus!
