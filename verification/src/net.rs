use vstd::prelude::*;

verus! {

/// A socket address, compared the way the network stack compares them: the
/// IP version, the 128-bit address (an IPv4 address in the low 32 bits), the
/// port, and for IPv6 also the flow label and scope.
#[derive(Clone, Copy, PartialEq, Eq, Structural, Debug)]
pub struct SockAddr {
    pub v6: bool,
    pub ip: u128,
    pub port: u16,
    pub flowinfo: u32,
    pub scope_id: u32,
}

impl SockAddr {
    /// The IPv4 address `ip` (its four bytes read as one big-endian number) with `port`.
    pub open spec fn v4_spec(ip: u32, port: u16) -> SockAddr {
        SockAddr { v6: false, ip: ip as u128, port, flowinfo: 0, scope_id: 0 }
    }

    /// The IPv4 address `ip` (its four bytes read as one big-endian number) with `port`.
    pub fn v4(ip: u32, port: u16) -> (r: SockAddr)
        ensures
            r == SockAddr::v4_spec(ip, port),
    {
        SockAddr { v6: false, ip: ip as u128, port, flowinfo: 0, scope_id: 0 }
    }

    /// `0.0.0.0:0`, the address a fresh record starts with.
    pub fn unspecified() -> (r: SockAddr)
        ensures
            r == (SockAddr { v6: false, ip: 0, port: 0, flowinfo: 0, scope_id: 0 }),
    {
        SockAddr::v4(0, 0)
    }
}

/// Whether two strings hold the same text.
pub fn text_is(s: &String, text: &str) -> (r: bool)
    ensures
        r == (s@ == text@),
{
    let t = text.to_owned();
    *s == t
}

} // verus!
