//! IP addresses and socket addresses as plain numbers.
use vstd::prelude::*;

verus! {

/// An IPv4 address held as its 32-bit number (first octet most significant).
#[derive(Clone, Copy, PartialEq, Eq, Structural, Debug)]
pub struct Ipv4Addr {
    pub bits: u32,
}

/// An IPv6 address held as its 128-bit number (first segment most significant).
#[derive(Clone, Copy, PartialEq, Eq, Structural, Debug)]
pub struct Ipv6Addr {
    pub bits: u128,
}

/// An IPv4 or IPv6 address.
#[derive(Clone, Copy, PartialEq, Eq, Structural, Debug)]
pub enum IpAddr {
    V4(Ipv4Addr),
    V6(Ipv6Addr),
}

/// An IP address with a port.
#[derive(Clone, Copy, PartialEq, Eq, Structural, Debug)]
pub struct SocketAddr {
    pub ip: IpAddr,
    pub port: u16,
}

/// The number of the dotted address `a.b.c.d`.
pub open spec fn ipv4_number(a: u8, b: u8, c: u8, d: u8) -> nat {
    (a as nat) * 16777216 + (b as nat) * 65536 + (c as nat) * 256 + (d as nat)
}

impl Ipv4Addr {
    /// The octet at position `i` (0 is the first, most significant one).
    pub open spec fn octet(self, i: int) -> nat {
        if i == 0 {
            (self.bits / 16777216) as nat
        } else if i == 1 {
            ((self.bits / 65536) % 256) as nat
        } else if i == 2 {
            ((self.bits / 256) % 256) as nat
        } else {
            (self.bits % 256) as nat
        }
    }

    /// The address `a.b.c.d`.
    pub fn new(a: u8, b: u8, c: u8, d: u8) -> (ip: Ipv4Addr)
        ensures
            ip.bits == ipv4_number(a, b, c, d),
            ip.octet(0) == a,
            ip.octet(1) == b,
            ip.octet(2) == c,
            ip.octet(3) == d,
    {
        let bits: u32 = (a as u32) * 16777216 + (b as u32) * 65536 + (c as u32) * 256 + (d as u32);
        let ip = Ipv4Addr { bits };
        assert(ip.octet(0) == a && ip.octet(1) == b && ip.octet(2) == c && ip.octet(3) == d)
            by (nonlinear_arith)
            requires
                bits == (a as nat) * 16777216 + (b as nat) * 65536 + (c as nat) * 256 + (d as nat),
                a < 256,
                b < 256,
                c < 256,
                d < 256,
                ip.bits == bits,
        ;
        ip
    }

    /// The four octets, first one first.
    pub fn octets(&self) -> (o: [u8; 4])
        ensures
            o@.len() == 4,
            forall|i: int| 0 <= i < 4 ==> o@[i] == self.octet(i),
    {
        let b = self.bits;
        [(b / 16777216) as u8, ((b / 65536) % 256) as u8, ((b / 256) % 256) as u8, (b % 256) as u8]
    }
}

impl Ipv6Addr {
    /// The first 16-bit segment.
    pub open spec fn first_segment(self) -> nat {
        (self.bits / 0x1_0000_0000_0000_0000_0000_0000_0000) as nat
    }

    /// The first 16-bit segment.
    pub fn segment0(&self) -> (s: u16)
        ensures
            s == self.first_segment(),
    {
        (self.bits / 0x1_0000_0000_0000_0000_0000_0000_0000) as u16
    }
}

impl SocketAddr {
    /// The port.
    pub fn port(&self) -> (p: u16)
        ensures
            p == self.port,
    {
        self.port
    }

    /// The IP address.
    pub fn ip(&self) -> (ip: IpAddr)
        ensures
            ip == self.ip,
    {
        self.ip
    }
}

} // verus!
