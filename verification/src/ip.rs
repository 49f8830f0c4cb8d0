use vstd::prelude::*;

verus! {

/// An IPv4 or IPv6 address, held as the integer that its octets spell out in
/// network (big-endian) order.
#[derive(Debug, Clone, Copy, PartialEq, Eq, Structural, Hash)]
pub enum IpAddr {
    V4(u32),
    V6(u128),
}

impl IpAddr {
    /// The IPv4 address `a.b.c.d`.
    pub fn v4(a: u8, b: u8, c: u8, d: u8) -> (r: IpAddr)
        ensures
            r == IpAddr::V4((a * 16777216 + b * 65536 + c * 256 + d) as u32),
    {
        IpAddr::V4(a as u32 * 16777216 + b as u32 * 65536 + c as u32 * 256 + d as u32)
    }
}

} // verus!
