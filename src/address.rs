//! Addresses, networks and endpoints as the host hands them over, and what they mean.
use vstd::prelude::*;

verus! {

/// An IPv4 address as four octets, most significant first.
#[derive(Clone, Copy, Debug)]
pub struct CIpv4Address {
    pub address: [u8; 4],
}

/// An IPv6 address as eight 16-bit groups, most significant first.
#[derive(Clone, Copy, Debug)]
pub struct CIpv6Address {
    pub address: [u16; 8],
}

/// An address of either family, tagged by `is_ipv4` (1 for IPv4, anything else for IPv6).
#[derive(Clone, Copy, Debug)]
pub struct CIpAddress {
    pub is_ipv4: u8,
    pub ipv4_address: CIpv4Address,
    pub ipv6_address: CIpv6Address,
}

/// An endpoint as the foreign caller hands it over: `endpoint_type` 1 selects the IPv4
/// address, 0 the IPv6 address, and any other value means "no endpoint".
#[derive(Clone, Copy, Debug)]
pub struct CIpEndpoint {
    pub endpoint_type: u8,
    pub ipv4: CIpv4Address,
    pub ipv6: CIpv6Address,
    pub port: u16,
}

/// An IPv4 network: an address and a prefix length.
#[derive(Clone, Copy, Debug)]
pub struct CIpv4Cidr {
    pub address: CIpv4Address,
    pub prefix: u8,
}

/// An IPv6 network: an address and a prefix length.
#[derive(Clone, Copy, Debug)]
pub struct CIpv6Cidr {
    pub address: CIpv6Address,
    pub prefix: u8,
}

/// The address family of an address, a gateway or a configuration error.
#[derive(Clone, Copy, PartialEq, Eq, Structural, Debug)]
pub enum IpFamily {
    V4,
    V6,
}

/// An address of one family, as the library keeps it.
#[derive(Clone, Copy, Debug)]
pub enum Address {
    V4(CIpv4Address),
    V6(CIpv6Address),
}

/// A remote endpoint: an address and a port.
#[derive(Clone, Copy, Debug)]
pub struct Endpoint {
    pub addr: Address,
    pub port: u16,
}

/// `CIpEndpoint::endpoint_type` of an IPv4 endpoint.
pub const ENDPOINT_IPV4: u8 = 1;

/// `CIpEndpoint::endpoint_type` of an IPv6 endpoint.
pub const ENDPOINT_IPV6: u8 = 0;

/// The address that a tagged foreign address stands for.
pub open spec fn address_of(a: CIpAddress) -> Address {
    if a.is_ipv4 == 1 {
        Address::V4(a.ipv4_address)
    } else {
        Address::V6(a.ipv6_address)
    }
}

/// The endpoint that a tagged foreign endpoint stands for, if any.
pub open spec fn endpoint_of(e: CIpEndpoint) -> Option<Endpoint> {
    if e.endpoint_type == ENDPOINT_IPV4 {
        Some(Endpoint { addr: Address::V4(e.ipv4), port: e.port })
    } else if e.endpoint_type == ENDPOINT_IPV6 {
        Some(Endpoint { addr: Address::V6(e.ipv6), port: e.port })
    } else {
        None
    }
}

/// An IPv4 address that the engine refuses as an interface address: the limited
/// broadcast address or a multicast (224.0.0.0/4) address.
pub open spec fn v4_is_group(a: CIpv4Address) -> bool {
    (a.address[0] == 255 && a.address[1] == 255 && a.address[2] == 255 && a.address[3] == 255)
        || (a.address[0] as int) / 16 == 14
}

/// An IPv6 address that the engine refuses as an interface address: a multicast
/// (ff00::/8) address.
pub open spec fn v6_is_group(a: CIpv6Address) -> bool {
    (a.address[0] as int) / 256 == 255
}

/// A network that can be assigned to an interface: a prefix of at most 32 bits and an
/// address that is neither broadcast nor multicast.
pub open spec fn v4_cidr_assignable(c: CIpv4Cidr) -> bool {
    c.prefix <= 32 && !v4_is_group(c.address)
}

/// A network that can be assigned to an interface: a prefix of at most 128 bits and a
/// non-multicast address.
pub open spec fn v6_cidr_assignable(c: CIpv6Cidr) -> bool {
    c.prefix <= 128 && !v6_is_group(c.address)
}

/// A prefix length that fits an IPv4 address.
pub open spec fn v4_prefix_valid(c: CIpv4Cidr) -> bool {
    c.prefix <= 32
}

/// A prefix length that fits an IPv6 address.
pub open spec fn v6_prefix_valid(c: CIpv6Cidr) -> bool {
    c.prefix <= 128
}

/// An address that names no host: 0.0.0.0/8 for IPv4, `::` for IPv6.
pub open spec fn is_unspecified(a: Address) -> bool {
    match a {
        Address::V4(v4) => v4.address[0] == 0,
        Address::V6(v6) => forall|i: int| 0 <= i < 8 ==> v6.address[i] == 0,
    }
}

impl CIpAddress {
    /// The address this tagged value stands for.
    pub fn to_address(&self) -> (r: Address)
        ensures
            r == address_of(*self),
    {
        if self.is_ipv4 == 1 {
            Address::V4(self.ipv4_address)
        } else {
            Address::V6(self.ipv6_address)
        }
    }
}

impl CIpEndpoint {
    /// The endpoint this tagged value stands for, or `None` where its type names none.
    pub fn to_endpoint(&self) -> (r: Option<Endpoint>)
        ensures
            r == endpoint_of(*self),
    {
        if self.endpoint_type == ENDPOINT_IPV4 {
            Some(Endpoint { addr: Address::V4(self.ipv4), port: self.port })
        } else if self.endpoint_type == ENDPOINT_IPV6 {
            Some(Endpoint { addr: Address::V6(self.ipv6), port: self.port })
        } else {
            None
        }
    }
}

impl CIpv4Cidr {
    /// Whether the prefix length fits an IPv4 address.
    pub fn has_valid_prefix(&self) -> (r: bool)
        ensures
            r == v4_prefix_valid(*self),
    {
        self.prefix <= 32
    }

    /// Whether this network can be assigned to an interface.
    pub fn is_assignable(&self) -> (r: bool)
        ensures
            r == v4_cidr_assignable(*self),
    {
        let a = self.address.address;
        let broadcast = a[0] == 255 && a[1] == 255 && a[2] == 255 && a[3] == 255;
        let multicast = a[0] / 16 == 14;
        self.prefix <= 32 && !broadcast && !multicast
    }
}

impl CIpv6Cidr {
    /// Whether the prefix length fits an IPv6 address.
    pub fn has_valid_prefix(&self) -> (r: bool)
        ensures
            r == v6_prefix_valid(*self),
    {
        self.prefix <= 128
    }

    /// Whether this network can be assigned to an interface.
    pub fn is_assignable(&self) -> (r: bool)
        ensures
            r == v6_cidr_assignable(*self),
    {
        self.prefix <= 128 && self.address.address[0] / 256 != 255
    }
}

} // verus!
