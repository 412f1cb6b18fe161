//! The ICMP header and its representation in memory, which is what goes on
//! the wire: each multi-byte field is stored in the host's byte order, so a
//! field meant to be in network order holds a value converted with `to_be`.
use vstd::prelude::*;
use crate::{be16, be32};
use crate::checksum::sum16;
use crate::endian::{bytes16_ne, bytes32_ne, u16_to_ne_bytes, u32_to_ne_bytes};

pub mod icmp_type;

verus! {

/// The size of an ICMP header in memory.
pub const ICMPHDR_SIZE: usize = 8;

/// The size of an ICMPv6 header as far as this library describes it (no field yet).
pub const ICMP6HDR_SIZE: usize = 0;

/// The identifier and sequence number of an echo request or reply.
#[derive(Debug, Clone, Copy)]
pub struct Echo {
    pub id: be16,
    pub sequence: be16,
}

/// The fields of a "fragmentation needed" message.
#[allow(non_snake_case)]
#[derive(Debug, Clone, Copy)]
pub struct Frag {
    pub __unused: u16,
    pub mtu: be16,
}

/// The last four bytes of an ICMP header, read one of three ways.
#[derive(Debug, Clone, Copy)]
pub enum Un {
    Echo(Echo),
    Gateway(be32),
    Frag(Frag),
}

/// An ICMP header.
#[allow(non_camel_case_types)]
#[derive(Debug, Clone, Copy)]
pub struct icmphdr {
    pub icmp_type: u8,
    pub code: u8,
    pub checksum: sum16,
    pub un: Un,
}

/// An ICMPv6 header (no field described yet).
#[allow(non_camel_case_types)]
#[derive(Debug, Clone, Copy)]
pub struct icmp6hdr {}

impl Un {
    /// The four bytes of the field in memory.
    pub open spec fn spec_bytes(self) -> Seq<u8> {
        match self {
            Un::Echo(e) => bytes16_ne(e.id) + bytes16_ne(e.sequence),
            Un::Gateway(g) => bytes32_ne(g),
            Un::Frag(f) => bytes16_ne(f.__unused) + bytes16_ne(f.mtu),
        }
    }
}

impl icmphdr {
    /// The eight bytes of the header in memory.
    pub open spec fn spec_bytes(self) -> Seq<u8> {
        seq![self.icmp_type, self.code] + bytes16_ne(self.checksum.0) + self.un.spec_bytes()
    }

    /// The header as it lies in memory.
    pub fn to_bytes(&self) -> (r: Vec<u8>)
        ensures
            r@ == self.spec_bytes(),
            r@.len() == ICMPHDR_SIZE,
    {
        let mut r: Vec<u8> = Vec::new();
        r.push(self.icmp_type);
        r.push(self.code);
        let c = u16_to_ne_bytes(self.checksum.0);
        r.push(c[0]);
        r.push(c[1]);
        match self.un {
            Un::Echo(e) => {
                let a = u16_to_ne_bytes(e.id);
                let b = u16_to_ne_bytes(e.sequence);
                r.push(a[0]);
                r.push(a[1]);
                r.push(b[0]);
                r.push(b[1]);
            },
            Un::Gateway(g) => {
                let a = u32_to_ne_bytes(g);
                r.push(a[0]);
                r.push(a[1]);
                r.push(a[2]);
                r.push(a[3]);
            },
            Un::Frag(f) => {
                let a = u16_to_ne_bytes(f.__unused);
                let b = u16_to_ne_bytes(f.mtu);
                r.push(a[0]);
                r.push(a[1]);
                r.push(b[0]);
                r.push(b[1]);
            },
        }
        assert(r@ =~= self.spec_bytes());
        r
    }
}

} // verus!
