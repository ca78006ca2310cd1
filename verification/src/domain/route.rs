use vstd::prelude::*;

use crate::domain::error::{CoreError, ErrorKind};
use crate::domain::id::{NetworkId, NodeId, SegmentId};

verus! {

/// The 32-bit value of the address `a.b.c.d`.
pub open spec fn ipv4_value(a: u8, b: u8, c: u8, d: u8) -> int {
    a * 0x100_0000 + b * 0x1_0000 + c * 0x100 + d
}

/// An IPv4 address held as its 32-bit big-endian value.
#[derive(Clone, Copy, Debug, PartialEq, Eq, Structural, PartialOrd, Ord, Hash)]
pub struct Ipv4Address(pub u32);

impl Ipv4Address {
    pub fn new(a: u8, b: u8, c: u8, d: u8) -> (address: Self)
        ensures
            address.0 == ipv4_value(a, b, c, d),
    {
        let value = ((a as u32) << 24u32) | ((b as u32) << 16u32) | ((c as u32) << 8u32) | (d as u32);
        assert(((a as u32) << 24u32) | ((b as u32) << 16u32) | ((c as u32) << 8u32) | (d as u32)
            == a * 0x100_0000 + b * 0x1_0000 + c * 0x100 + d) by (bit_vector);
        Ipv4Address(value)
    }

    pub fn from_u32(value: u32) -> (address: Self)
        ensures
            address.0 == value,
    {
        Ipv4Address(value)
    }

    pub fn to_u32(&self) -> (value: u32)
        ensures
            value == self.0,
    {
        self.0
    }

    /// The four dotted-quad octets, most significant first.
    pub fn octets(&self) -> (octets: [u8; 4])
        ensures
            ipv4_value(octets@[0], octets@[1], octets@[2], octets@[3]) == self.0,
            octets@[0] == self.0 / 0x100_0000,
            octets@[1] == (self.0 / 0x1_0000) % 256,
            octets@[2] == (self.0 / 0x100) % 256,
            octets@[3] == self.0 % 256,
    {
        let v = self.0;
        assert((v >> 24u32) as u8 == v / 0x100_0000) by (bit_vector);
        assert((v >> 16u32) as u8 == (v / 0x1_0000) % 256) by (bit_vector);
        assert((v >> 8u32) as u8 == (v / 0x100) % 256) by (bit_vector);
        assert(v as u8 == v % 256) by (bit_vector);
        let octets = [(v >> 24u32) as u8, (v >> 16u32) as u8, (v >> 8u32) as u8, v as u8];
        assert(((v >> 24u32) as u8) * 0x100_0000 + ((v >> 16u32) as u8) * 0x1_0000 + ((v >> 8u32)
            as u8) * 0x100 + (v as u8) == v) by (bit_vector);
        octets
    }
}

/// An IPv6 address held as its 128-bit big-endian value.
#[derive(Clone, Copy, Debug, PartialEq, Eq, Structural, PartialOrd, Ord, Hash)]
pub struct Ipv6Address(pub u128);

/// An IP address of either family.
#[derive(Clone, Copy, Debug, PartialEq, Eq, Structural, PartialOrd, Ord, Hash)]
pub enum IpAddress {
    V4(Ipv4Address),
    V6(Ipv6Address),
}

impl IpAddress {
    pub fn is_ipv4(&self) -> (v4: bool)
        ensures
            v4 == (*self is V4),
    {
        match self {
            IpAddress::V4(_) => true,
            IpAddress::V6(_) => false,
        }
    }
}

/// The largest prefix length of an address family.
pub open spec fn max_prefix_len(address: IpAddress) -> int {
    match address {
        IpAddress::V4(_) => 32,
        IpAddress::V6(_) => 128,
    }
}

#[derive(Clone, Copy, Debug, PartialEq, Eq, Structural, PartialOrd, Ord, Hash)]
pub struct IpPrefix {
    pub address: IpAddress,
    pub prefix_len: u8,
}

impl IpPrefix {
    /// Accepts a prefix length of at most 32 for IPv4 and 128 for IPv6.
    pub fn new(address: IpAddress, prefix_len: u8) -> (result: Result<Self, CoreError>)
        ensures
            result is Ok <==> prefix_len <= max_prefix_len(address),
            match result {
                Ok(prefix) => prefix.address == address && prefix.prefix_len == prefix_len,
                Err(error) => error.spec_kind() == ErrorKind::InvalidInput && error.spec_message()
                    == "prefix length is invalid for the address"@ && error.spec_diagnostic() is None,
            },
    {
        let maximum: u8 = match address {
            IpAddress::V4(_) => 32,
            IpAddress::V6(_) => 128,
        };
        if prefix_len > maximum {
            return Err(
                CoreError::new(ErrorKind::InvalidInput, "prefix length is invalid for the address"),
            );
        }
        Ok(IpPrefix { address, prefix_len })
    }
}

#[derive(Clone, Copy, Debug, PartialEq, Eq, PartialOrd, Ord)]
pub enum RouteDestination {
    Node(NodeId),
    Segment(SegmentId),
    Prefix(IpPrefix),
    /// Reserved for later gateway/default-route support.
    Internet,
}

#[derive(Clone, Copy, Debug, PartialEq, Eq, PartialOrd, Ord)]
pub enum RouteOwner {
    BlueRouteNetwork(NetworkId),
}

#[derive(Clone, Copy, Debug, PartialEq, Eq, PartialOrd, Ord)]
pub struct Route {
    pub destination: RouteDestination,
    pub next_hop: NodeId,
    pub cost: u32,
    pub owner: RouteOwner,
}

} // verus!
