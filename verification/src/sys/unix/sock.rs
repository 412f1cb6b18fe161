//! Socket constants of the Linux C library.
use vstd::prelude::*;

verus! {

/// IPv4 address family.
pub const AF_INET: i32 = 2;

/// IPv6 address family.
pub const AF_INET6: i32 = 10;

/// Datagram socket type.
pub const SOCK_DGRAM: i32 = 2;

/// The ICMP protocol.
pub const IPPROTO_ICMP: i32 = 1;

} // verus!
