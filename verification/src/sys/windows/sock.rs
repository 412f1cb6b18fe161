//! Socket address structures of the Windows socket API, with addresses in
//! network byte order.
use vstd::prelude::*;
use crate::{be16, be32};
use crate::endian::{
    be16_of_host, be32_of_host, bytes32_be, bytes32_ne, lemma_be32_in_memory, lemma_be32_roundtrip,
    lemma_be_bytes32_roundtrip, u16_to_be, u32_from_be, u32_of_be_bytes, u32_to_be,
};
use crate::net::{Ipv4Addr, Ipv6Addr, octets_of_bits};

verus! {

/// IPv4 address family.
pub const AF_INET: u16 = 2;

/// IPv6 address family.
pub const AF_INET6: u16 = 23;

/// The default IPv6 flow information.
pub const IPV6_FLOWINFO_DEFAULT: u32 = 0;

/// The default IPv6 scope id.
pub const IPV6_SCOPE_ID_DEFAULT: u32 = 0;

/// The `in_addr` of an IPv4 address: its octets read most significant first,
/// converted to network order.
pub open spec fn in_addr_of(a: Ipv4Addr) -> in_addr {
    in_addr { bits: be32_of_host(u32_of_be_bytes(a.octets)) }
}

/// The IPv4 address of an `in_addr`: its bits converted from network order,
/// split most significant first.
pub open spec fn ipv4_of(a: in_addr) -> Ipv4Addr {
    Ipv4Addr { octets: octets_of_bits(be32_of_host(a.bits)) }
}

/// An IPv4 address in network byte order.
#[allow(non_camel_case_types)]
#[derive(Debug, Clone, Copy, Default)]
pub struct in_addr {
    pub bits: be32,
}

impl From<Ipv4Addr> for in_addr {
    fn from(value: Ipv4Addr) -> (r: Self) {
        in_addr { bits: u32_to_be(value.to_bits()) }
    }
}

impl vstd::std_specs::convert::FromSpecImpl<Ipv4Addr> for in_addr {
    open spec fn obeys_from_spec() -> bool {
        true
    }

    open spec fn from_spec(v: Ipv4Addr) -> Self {
        in_addr_of(v)
    }
}

impl From<in_addr> for Ipv4Addr {
    fn from(value: in_addr) -> (r: Self) {
        Ipv4Addr::from_bits(u32_from_be(value.bits))
    }
}

impl vstd::std_specs::convert::FromSpecImpl<in_addr> for Ipv4Addr {
    open spec fn obeys_from_spec() -> bool {
        true
    }

    open spec fn from_spec(v: in_addr) -> Self {
        ipv4_of(v)
    }
}

impl From<in_addr> for be32 {
    fn from(value: in_addr) -> (r: Self) {
        value.bits
    }
}

impl vstd::std_specs::convert::FromSpecImpl<in_addr> for be32 {
    open spec fn obeys_from_spec() -> bool {
        true
    }

    open spec fn from_spec(v: in_addr) -> Self {
        v.bits
    }
}

/// An IPv4 socket address.
#[allow(non_camel_case_types)]
#[derive(Debug, Clone, Copy, Default)]
pub struct sockaddr_in {
    pub sin_family: u16,
    pub sin_port: be16,
    pub sin_addr: in_addr,
    pub sin_zero: [u8; 8],
}

impl sockaddr_in {
    /// The IPv4 socket address of `addr`, port zero.
    pub fn new(addr: in_addr) -> (r: Self)
        ensures
            r.sin_family == AF_INET,
            r.sin_addr == addr,
            r.sin_port == 0,
            r.sin_zero@ == seq![0u8, 0, 0, 0, 0, 0, 0, 0],
    {
        let r = Self { sin_family: AF_INET, sin_addr: addr, sin_port: 0_u16, sin_zero: [0; 8] };
        assert(r.sin_zero@ =~= seq![0u8, 0, 0, 0, 0, 0, 0, 0]);
        r
    }
}

/// The `in6_addr` of an IPv6 address: its octets.
pub open spec fn in6_addr_of(a: Ipv6Addr) -> in6_addr {
    in6_addr { octets: a.octets }
}

/// The IPv6 address of an `in6_addr`: its octets.
pub open spec fn ipv6_of(a: in6_addr) -> Ipv6Addr {
    Ipv6Addr { octets: a.octets }
}

/// An IPv6 address in network byte order.
#[allow(non_camel_case_types)]
#[derive(Debug, Clone, Copy, Default)]
pub struct in6_addr {
    pub octets: [u8; 16],
}

impl From<Ipv6Addr> for in6_addr {
    fn from(value: Ipv6Addr) -> (r: Self) {
        in6_addr { octets: value.octets() }
    }
}

impl vstd::std_specs::convert::FromSpecImpl<Ipv6Addr> for in6_addr {
    open spec fn obeys_from_spec() -> bool {
        true
    }

    open spec fn from_spec(v: Ipv6Addr) -> Self {
        in6_addr_of(v)
    }
}

impl From<in6_addr> for Ipv6Addr {
    fn from(value: in6_addr) -> (r: Self) {
        Ipv6Addr::from_octets(value.octets)
    }
}

impl vstd::std_specs::convert::FromSpecImpl<in6_addr> for Ipv6Addr {
    open spec fn obeys_from_spec() -> bool {
        true
    }

    open spec fn from_spec(v: in6_addr) -> Self {
        ipv6_of(v)
    }
}

/// An IPv6 socket address.
#[allow(non_camel_case_types)]
#[derive(Debug, Clone, Copy)]
pub struct sockaddr_in6 {
    pub sin6_family: u16,
    pub sin6_port: be16,
    pub sin6_flowinfo: u32,
    pub sin6_addr: in6_addr,
    pub sin6_scope_id: u32,
}

impl sockaddr_in6 {
    /// The IPv6 socket address of `addr`, port zero, default flow information
    /// and scope id.
    pub fn new(addr: in6_addr) -> (r: Self)
        ensures
            r.sin6_family == AF_INET6,
            r.sin6_addr == addr,
            r.sin6_port == be16_of_host(0),
            r.sin6_flowinfo == IPV6_FLOWINFO_DEFAULT,
            r.sin6_scope_id == IPV6_SCOPE_ID_DEFAULT,
    {
        Self::new_ext(addr, 0, IPV6_FLOWINFO_DEFAULT, IPV6_SCOPE_ID_DEFAULT)
    }

    /// The IPv6 socket address of `addr` with the given port (in host order,
    /// stored in network order), flow information and scope id.
    pub fn new_ext(addr: in6_addr, port: u16, flow_info: u32, scope_id: u32) -> (r: Self)
        ensures
            r.sin6_family == AF_INET6,
            r.sin6_addr == addr,
            r.sin6_port == be16_of_host(port),
            r.sin6_flowinfo == flow_info,
            r.sin6_scope_id == scope_id,
    {
        Self {
            sin6_family: AF_INET6,
            sin6_addr: addr,
            sin6_port: u16_to_be(port),
            sin6_flowinfo: flow_info,
            sin6_scope_id: scope_id,
        }
    }
}

/// Converting an IPv4 address to `in_addr` and back gives the address back.
pub proof fn lemma_in_addr_roundtrip(a: Ipv4Addr)
    ensures
        ipv4_of(in_addr_of(a)) == a,
{
    let x = u32_of_be_bytes(a.octets);
    lemma_be32_roundtrip(x);
    lemma_be_bytes32_roundtrip(a.octets);
    assert(octets_of_bits(x)@ =~= bytes32_be(x));
    assert(octets_of_bits(x)@ =~= a.octets@);
    assert(octets_of_bits(x) =~= a.octets);
}

/// In memory, the bits of an `in_addr` made of an IPv4 address are the
/// address's octets in order, on any host.
pub proof fn lemma_in_addr_in_memory(a: Ipv4Addr)
    ensures
        bytes32_ne(in_addr_of(a).bits) == a.octets@,
{
    lemma_be32_in_memory(u32_of_be_bytes(a.octets));
    lemma_be_bytes32_roundtrip(a.octets);
}

/// Converting an IPv6 address to `in6_addr` and back gives the address back.
pub proof fn lemma_in6_addr_roundtrip(a: Ipv6Addr)
    ensures
        ipv6_of(in6_addr_of(a)) == a,
{
}

} // verus!
