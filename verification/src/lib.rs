//! Sending ICMP echo requests ("ping") and reading the replies: the packet
//! format, the Internet checksum, socket addresses and the session logic.
use vstd::prelude::*;
use crate::net::IpAddr;

pub mod checksum;
pub mod echo;
pub mod endian;
pub mod net;
pub mod run;
pub mod sys;

pub use echo::{EchoError, EchoReply, EchoRequest, EchoResult, EchoSession};

verus! {

#[verifier::external_type_specification]
#[verifier::external_body]
pub struct ExIoError(std::io::Error);

/// `io::Error::last_os_error`: the error of the last failed system call of
/// this thread; nothing is stated of it.
#[verifier::external_body]
pub(crate) fn last_os_error() -> std::io::Error {
    std::io::Error::last_os_error()
}

/// A 16-bit value stored in network byte order.
#[allow(non_camel_case_types)]
pub type be16 = u16;

/// A 32-bit value stored in network byte order.
#[allow(non_camel_case_types)]
pub type be32 = u32;

/// A host to ping: an address or a name to resolve.
#[derive(Debug, Clone)]
pub enum Host {
    Ip(IpAddr),
    Hostname(String),
}

/// Errors of opening an echo session or resolving a host.
#[derive(Debug)]
pub enum Error {
    HostnameResolutionFailed,
    IoErr(std::io::Error),
    RequestDataTooBig,
    SocketOpenFailed(std::io::Error),
}

impl From<std::io::Error> for Error {
    fn from(value: std::io::Error) -> (r: Self) {
        Error::IoErr(value)
    }
}

impl vstd::std_specs::convert::FromSpecImpl<std::io::Error> for Error {
    open spec fn obeys_from_spec() -> bool {
        true
    }

    open spec fn from_spec(v: std::io::Error) -> Self {
        Error::IoErr(v)
    }
}

/// The IP protocol version of an address or a socket.
#[derive(Debug, Clone, Copy, PartialEq, Eq, Structural)]
pub enum IpVer {
    V4,
    V6,
}

impl IpVer {
    /// True for `IpVer::V4`.
    pub fn is_ipv4(self) -> (r: bool)
        ensures
            r <==> self is V4,
    {
        matches!(self, IpVer::V4)
    }

    /// True for `IpVer::V6`.
    pub fn is_ipv6(self) -> (r: bool)
        ensures
            r <==> self is V6,
    {
        matches!(self, IpVer::V6)
    }
}

/// The version of an address.
pub open spec fn ip_ver_of(addr: IpAddr) -> IpVer {
    match addr {
        IpAddr::V4(_) => IpVer::V4,
        IpAddr::V6(_) => IpVer::V6,
    }
}

impl From<IpAddr> for IpVer {
    fn from(value: IpAddr) -> (r: Self) {
        if value.is_ipv4() {
            IpVer::V4
        } else {
            IpVer::V6
        }
    }
}

impl vstd::std_specs::convert::FromSpecImpl<IpAddr> for IpVer {
    open spec fn obeys_from_spec() -> bool {
        true
    }

    open spec fn from_spec(v: IpAddr) -> Self {
        ip_ver_of(v)
    }
}

/// Exactly one of `is_ipv4` and `is_ipv6` holds of every version.
pub proof fn lemma_ip_ver_exclusive(v: IpVer)
    ensures
        (v is V4) != (v is V6),
{
}

} // verus!
