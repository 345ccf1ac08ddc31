//! Internet addresses as plain values.

use vstd::prelude::*;

verus! {

/// An IPv4 address, held as its four octets in network order.
#[derive(PartialEq, Eq, Clone, Copy, Debug, Hash)]
pub struct Ipv4Addr {
    pub octets: [u8; 4],
}

/// An IPv6 address, held as its sixteen octets in network order.
#[derive(PartialEq, Eq, Clone, Copy, Debug, Hash)]
pub struct Ipv6Addr {
    pub octets: [u8; 16],
}

/// Either kind of IP address.
#[derive(PartialEq, Eq, Clone, Copy, Debug, Hash)]
pub enum IpAddr {
    V4(Ipv4Addr),
    V6(Ipv6Addr),
}

/// An IP address with a port.
#[derive(PartialEq, Eq, Clone, Copy, Debug, Hash)]
pub struct SocketAddr {
    pub ip: IpAddr,
    pub port: u16,
}

impl Ipv4Addr {
    pub fn new(a: u8, b: u8, c: u8, d: u8) -> (r: Ipv4Addr)
        ensures
            r.octets@ == seq![a, b, c, d],
    {
        let r = Ipv4Addr { octets: [a, b, c, d] };
        assert(r.octets@ =~= seq![a, b, c, d]);
        r
    }

    pub fn octets(&self) -> (r: [u8; 4])
        ensures
            r == self.octets,
    {
        self.octets
    }
}

impl Ipv6Addr {
    /// Builds the address from its eight 16-bit segments, most significant
    /// byte of each segment first.
    #[verifier::rlimit(40)]
    pub fn new(a: u16, b: u16, c: u16, d: u16, e: u16, f: u16, g: u16, h: u16) -> (r: Ipv6Addr)
        ensures
            r.octets@ =~= crate::codec::u16_be_bytes(a) + crate::codec::u16_be_bytes(b)
                + crate::codec::u16_be_bytes(c) + crate::codec::u16_be_bytes(d)
                + crate::codec::u16_be_bytes(e) + crate::codec::u16_be_bytes(f)
                + crate::codec::u16_be_bytes(g) + crate::codec::u16_be_bytes(h),
    {
        let r = Ipv6Addr {
            octets: [
                (a >> 8u16) as u8, a as u8, (b >> 8u16) as u8, b as u8,
                (c >> 8u16) as u8, c as u8, (d >> 8u16) as u8, d as u8,
                (e >> 8u16) as u8, e as u8, (f >> 8u16) as u8, f as u8,
                (g >> 8u16) as u8, g as u8, (h >> 8u16) as u8, h as u8,
            ],
        };
        r
    }

    pub fn octets(&self) -> (r: [u8; 16])
        ensures
            r == self.octets,
    {
        self.octets
    }
}

impl SocketAddr {
    pub fn new(ip: IpAddr, port: u16) -> (r: SocketAddr)
        ensures
            r.ip == ip,
            r.port == port,
    {
        SocketAddr { ip, port }
    }

    pub fn ip(&self) -> (r: IpAddr)
        ensures
            r == self.ip,
    {
        self.ip
    }

    pub fn port(&self) -> (r: u16)
        ensures
            r == self.port,
    {
        self.port
    }

    pub fn is_ipv4(&self) -> (r: bool)
        ensures
            r == (self.ip is V4),
    {
        match self.ip {
            IpAddr::V4(_) => true,
            IpAddr::V6(_) => false,
        }
    }

    pub fn is_ipv6(&self) -> (r: bool)
        ensures
            r == (self.ip is V6),
    {
        !self.is_ipv4()
    }
}

} // verus!
