//! Network addresses as plain values.

use vstd::prelude::*;

verus! {

/// An IP address, as its octets in network order.
#[derive(Debug, Clone, Copy, PartialEq, Eq)]
pub enum IpAddress {
    V4([u8; 4]),
    V6([u8; 16]),
}

/// A socket address. `flowinfo` and `scope_id` are zero for IPv4.
#[derive(Debug, Clone, Copy, PartialEq, Eq)]
pub struct SocketAddress {
    pub ip: IpAddress,
    pub port: u16,
    pub flowinfo: u32,
    pub scope_id: u32,
}

fn same_bytes(a: &[u8], b: &[u8]) -> (r: bool)
    ensures
        r == (a@ == b@),
{
    if a.len() != b.len() {
        return false;
    }
    for i in 0..a.len()
        invariant
            a@.len() == b@.len(),
            forall|j: int| 0 <= j < i ==> a@[j] == b@[j],
    {
        if a[i] != b[i] {
            return false;
        }
    }
    assert(a@ =~= b@);
    true
}

impl IpAddress {
    /// Whether two addresses are the same.
    pub fn same(&self, other: &IpAddress) -> (r: bool)
        ensures
            r == (*self == *other),
    {
        match (self, other) {
            (IpAddress::V4(a), IpAddress::V4(b)) => {
                let r = same_bytes(a.as_slice(), b.as_slice());
                assert(a@ == b@ ==> a =~= b);
                r
            },
            (IpAddress::V6(a), IpAddress::V6(b)) => {
                let r = same_bytes(a.as_slice(), b.as_slice());
                assert(a@ == b@ ==> a =~= b);
                r
            },
            _ => false,
        }
    }
}

impl SocketAddress {
    /// Whether two addresses are the same.
    pub fn same(&self, other: &SocketAddress) -> (r: bool)
        ensures
            r == (*self == *other),
    {
        self.ip.same(&other.ip) && self.port == other.port && self.flowinfo == other.flowinfo
            && self.scope_id == other.scope_id
    }

    /// The address of a port on a host.
    pub fn new(ip: IpAddress, port: u16) -> (out: SocketAddress)
        ensures
            out == (SocketAddress { ip, port, flowinfo: 0, scope_id: 0 }),
    {
        SocketAddress { ip, port, flowinfo: 0, scope_id: 0 }
    }
}

} // verus!
