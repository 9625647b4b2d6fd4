//! Classes of IP addresses.
use vstd::prelude::*;
use crate::net::{IpAddr, Ipv4Addr, Ipv6Addr};

verus! {

/// 10.0.0.0/8, 172.16.0.0/12, 192.168.0.0/16 and 169.254.0.0/16.
pub open spec fn private_v4(ip: Ipv4Addr) -> bool {
    ||| ip.octet(0) == 10
    ||| (ip.octet(0) == 172 && 16 <= ip.octet(1) <= 31)
    ||| (ip.octet(0) == 192 && ip.octet(1) == 168)
    ||| (ip.octet(0) == 169 && ip.octet(1) == 254)
}

/// fc00::/7 (unique local) and fe80::/10 (link local).
pub open spec fn private_v6(ip: Ipv6Addr) -> bool {
    ||| 0xfc00 <= ip.first_segment() <= 0xfdff
    ||| 0xfe80 <= ip.first_segment() <= 0xfebf
}

/// Whether `ip` lies in a private or link-local range.
pub open spec fn private_ip(ip: IpAddr) -> bool {
    match ip {
        IpAddr::V4(v4) => private_v4(v4),
        IpAddr::V6(v6) => private_v6(v6),
    }
}

/// 127.0.0.0/8 and ::1.
pub open spec fn loopback_ip(ip: IpAddr) -> bool {
    match ip {
        IpAddr::V4(v4) => v4.octet(0) == 127,
        IpAddr::V6(v6) => v6.bits == 1,
    }
}

/// 224.0.0.0/4 and ff00::/8.
pub open spec fn multicast_ip(ip: IpAddr) -> bool {
    match ip {
        IpAddr::V4(v4) => 224 <= v4.octet(0) <= 239,
        IpAddr::V6(v6) => v6.first_segment() >= 0xff00,
    }
}

/// Whether `ip` lies in a private or link-local range.
pub fn is_private_ip(ip: &IpAddr) -> (b: bool)
    ensures
        b == private_ip(*ip),
{
    match ip {
        IpAddr::V4(ipv4) => is_private_ipv4(ipv4),
        IpAddr::V6(ipv6) => is_private_ipv6(ipv6),
    }
}

/// Whether `ip` lies in 10.0.0.0/8, 172.16.0.0/12, 192.168.0.0/16 or 169.254.0.0/16.
pub fn is_private_ipv4(ip: &Ipv4Addr) -> (b: bool)
    ensures
        b == private_v4(*ip),
{
    let octets = ip.octets();
    if octets[0] == 10 {
        return true;
    }
    if octets[0] == 172 && 16 <= octets[1] && octets[1] <= 31 {
        return true;
    }
    if octets[0] == 192 && octets[1] == 168 {
        return true;
    }
    if octets[0] == 169 && octets[1] == 254 {
        return true;
    }
    false
}

/// Whether `ip` lies in fc00::/7 or fe80::/10.
pub fn is_private_ipv6(ip: &Ipv6Addr) -> (b: bool)
    ensures
        b == private_v6(*ip),
{
    let s = ip.segment0();
    if s & 0xfe00 == 0xfc00 {
        assert(0xfc00 <= s <= 0xfdff) by (bit_vector)
            requires
                s & 0xfe00u16 == 0xfc00u16,
        ;
        return true;
    }
    assert(!(0xfc00 <= s <= 0xfdff)) by (bit_vector)
        requires
            s & 0xfe00u16 != 0xfc00u16,
    ;
    if s & 0xffc0 == 0xfe80 {
        assert(0xfe80 <= s <= 0xfebf) by (bit_vector)
            requires
                s & 0xffc0u16 == 0xfe80u16,
        ;
        return true;
    }
    assert(!(0xfe80 <= s <= 0xfebf)) by (bit_vector)
        requires
            s & 0xffc0u16 != 0xfe80u16,
    ;
    false
}

/// Whether `ip` is a loopback address.
pub fn is_loopback_ip(ip: &IpAddr) -> (b: bool)
    ensures
        b == loopback_ip(*ip),
{
    match ip {
        IpAddr::V4(ipv4) => ipv4.octets()[0] == 127,
        IpAddr::V6(ipv6) => ipv6.bits == 1,
    }
}

/// Whether `ip` is a multicast address.
pub fn is_multicast_ip(ip: &IpAddr) -> (b: bool)
    ensures
        b == multicast_ip(*ip),
{
    match ip {
        IpAddr::V4(ipv4) => {
            let o = ipv4.octets();
            224 <= o[0] && o[0] <= 239
        },
        IpAddr::V6(ipv6) => ipv6.segment0() >= 0xff00,
    }
}

} // verus!
