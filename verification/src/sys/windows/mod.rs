//! ICMP handles of the Windows IP helper API.
use vstd::prelude::*;
use crate::last_os_error;

pub mod sock;

verus! {

/// A handle to an open ICMP context.
#[derive(Debug)]
pub struct IcmpHandle(isize);

impl IcmpHandle {
    /// The handle held.
    pub closed spec fn spec_handle(self) -> isize {
        self.0
    }

    /// The handle for a value returned by `IcmpCreateFile` or
    /// `Icmp6CreateFile`: the last system error when it is -1
    /// (`INVALID_HANDLE_VALUE`).
    pub fn to_res(h: isize) -> (r: Result<Self, std::io::Error>)
        ensures
            r is Err <==> h == -1,
            r matches Ok(s) ==> s.spec_handle() == h,
    {
        if h == -1 {
            return Err(last_os_error());
        }
        Ok(IcmpHandle(h))
    }

    /// The handle for a value taken as it is (for a handle known to be open).
    pub fn from_raw(h: isize) -> (r: Self)
        ensures
            r.spec_handle() == h,
    {
        IcmpHandle(h)
    }

    /// The raw handle.
    pub fn as_raw(&self) -> (r: isize)
        ensures
            r == self.spec_handle(),
    {
        self.0
    }
}

} // verus!
