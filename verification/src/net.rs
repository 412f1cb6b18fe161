//! IP addresses as plain values: the octets of an address, in network order.
use vstd::prelude::*;
use crate::endian::{bytes32_be, u32_of_be_bytes};

verus! {

/// The four bytes of `x`, most significant first, as an array.
pub open spec fn octets_of_bits(x: u32) -> [u8; 4] {
    [(x >> 24) as u8, ((x >> 16) & 0xff) as u8, ((x >> 8) & 0xff) as u8, (x & 0xff) as u8]
}

/// An IPv4 address.
#[derive(Debug, Clone, Copy, PartialEq, Eq, Hash)]
pub struct Ipv4Addr {
    pub octets: [u8; 4],
}

/// An IPv6 address.
#[derive(Debug, Clone, Copy, PartialEq, Eq, Hash)]
pub struct Ipv6Addr {
    pub octets: [u8; 16],
}

/// An IPv4 or an IPv6 address.
#[derive(Debug, Clone, Copy, PartialEq, Eq, Hash)]
pub enum IpAddr {
    V4(Ipv4Addr),
    V6(Ipv6Addr),
}

impl Ipv4Addr {
    /// The address with these octets.
    pub fn new(octets: [u8; 4]) -> (r: Self)
        ensures
            r.octets == octets,
    {
        Ipv4Addr { octets }
    }

    /// The four octets of the address.
    pub fn octets(&self) -> (r: [u8; 4])
        ensures
            r == self.octets,
    {
        self.octets
    }

    /// The address whose octets are the bytes of `bits`, most significant first.
    pub fn from_bits(bits: u32) -> (r: Self)
        ensures
            r.octets == octets_of_bits(bits),
            r.octets@ == bytes32_be(bits),
    {
        let octets: [u8; 4] = [
            (bits >> 24) as u8,
            ((bits >> 16) & 0xff) as u8,
            ((bits >> 8) & 0xff) as u8,
            (bits & 0xff) as u8,
        ];
        assert(octets@ =~= bytes32_be(bits));
        assert(octets =~= octets_of_bits(bits));
        Ipv4Addr { octets }
    }

    /// The address as a 32-bit integer, first octet most significant.
    pub fn to_bits(&self) -> (r: u32)
        ensures
            r == u32_of_be_bytes(self.octets),
    {
        ((self.octets[0] as u32) << 24) | ((self.octets[1] as u32) << 16) | ((self.octets[2] as u32)
            << 8) | (self.octets[3] as u32)
    }
}

impl Ipv6Addr {
    /// The address with these octets.
    pub fn from_octets(octets: [u8; 16]) -> (r: Self)
        ensures
            r.octets == octets,
    {
        Ipv6Addr { octets }
    }

    /// The sixteen octets of the address.
    pub fn octets(&self) -> (r: [u8; 16])
        ensures
            r == self.octets,
    {
        self.octets
    }
}

impl IpAddr {
    /// True for an IPv4 address.
    pub fn is_ipv4(&self) -> (r: bool)
        ensures
            r <==> self is V4,
    {
        matches!(self, IpAddr::V4(_))
    }

    /// True for an IPv6 address.
    pub fn is_ipv6(&self) -> (r: bool)
        ensures
            r <==> self is V6,
    {
        matches!(self, IpAddr::V6(_))
    }
}

} // verus!
