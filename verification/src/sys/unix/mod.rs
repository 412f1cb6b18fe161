//! ICMP datagram sockets on Unix.
use vstd::prelude::*;
use crate::{IpVer, last_os_error};
use crate::sys::unix::sock::{AF_INET, AF_INET6};

pub use crate::checksum::sum16;

pub mod icmp;
pub mod sock;

verus! {

/// A descriptor of an open ICMP (`SOCK_DGRAM` + `IPPROTO_ICMP`) socket.
#[derive(Debug)]
pub struct IcmpSocket(i32);

impl IcmpSocket {
    /// The descriptor held.
    pub closed spec fn spec_fd(self) -> i32 {
        self.0
    }

    /// The address family a socket for `ver` is opened with.
    pub fn domain(ver: IpVer) -> (r: i32)
        ensures
            r == (if ver is V4 {
                AF_INET
            } else {
                AF_INET6
            }),
    {
        match ver {
            IpVer::V4 => AF_INET,
            IpVer::V6 => AF_INET6,
        }
    }

    /// The socket for a descriptor returned by `socket`: the last system error
    /// when it is -1, the value by which the C library reports a failure.
    pub fn from_descriptor(fd: i32) -> (r: Result<Self, std::io::Error>)
        ensures
            r is Err <==> fd == -1,
            r matches Ok(s) ==> s.spec_fd() == fd,
    {
        if fd == -1 {
            return Err(last_os_error());
        }
        Ok(IcmpSocket(fd))
    }

    /// The socket for a descriptor taken as it is (for a descriptor known to be open).
    pub fn from_raw(fd: i32) -> (r: Self)
        ensures
            r.spec_fd() == fd,
    {
        IcmpSocket(fd)
    }

    /// The raw descriptor.
    pub fn as_raw(&self) -> (r: i32)
        ensures
            r == self.spec_fd(),
    {
        self.0
    }
}

} // verus!
