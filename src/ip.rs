use vstd::prelude::*;

verus! {

/// 2^32: an IPv6 address divided by this gives its upper 96 bits.
pub const LOW_32: u128 = 0x1_0000_0000;

/// An IP address as the number it stands for: 32 bits for IPv4, 128 bits for
/// IPv6 (most significant byte first, as the address is written).
#[derive(Clone, Copy, Debug, PartialEq, Eq, Hash, Structural)]
pub enum IpAddress {
    V4(u32),
    V6(u128),
}

/// The IPv4 address that an IPv6 address carries, if it has one: an
/// IPv4-compatible address `::a.b.c.d` (upper 96 bits zero) or an
/// IPv4-mapped address `::ffff:a.b.c.d`.
pub open spec fn ipv4_equivalent(x: u128) -> Option<u32> {
    let high = x / LOW_32;
    if high == 0 || high == 0xffff {
        Some((x % LOW_32) as u32)
    } else {
        None
    }
}

/// The canonical form of an address used as a lookup key.
pub open spec fn normalized(a: IpAddress) -> IpAddress {
    match a {
        IpAddress::V4(_) => a,
        IpAddress::V6(x) => match ipv4_equivalent(x) {
            Some(v4) => IpAddress::V4(v4),
            None => a,
        },
    }
}

/// Canonicalizes an address: IPv4 addresses are kept, IPv6 addresses with an
/// IPv4 equivalent become that IPv4 address, other IPv6 addresses are kept.
pub fn normalize_ip_addr(ip: IpAddress) -> (r: IpAddress)
    ensures
        r == normalized(ip),
        ip is V4 ==> r == ip,
        forall|x: u128, v4: u32|
            ip == IpAddress::V6(x) && ipv4_equivalent(x) == Some(v4) ==> r == IpAddress::V4(v4),
        forall|x: u128| ip == IpAddress::V6(x) && ipv4_equivalent(x) is None ==> r == ip,
{
    match ip {
        IpAddress::V4(_) => ip,
        IpAddress::V6(x) => {
            let high: u128 = x / LOW_32;
            if high == 0 || high == 0xffff {
                IpAddress::V4((x % LOW_32) as u32)
            } else {
                ip
            }
        },
    }
}

} // verus!
