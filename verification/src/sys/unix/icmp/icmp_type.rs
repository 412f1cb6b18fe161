//! ICMP message types.
use vstd::prelude::*;

verus! {

/// Echo reply.
pub const ICMP_ECHOREPLY: u8 = 0;

/// Echo request.
pub const ICMP_ECHO: u8 = 8;

} // verus!
