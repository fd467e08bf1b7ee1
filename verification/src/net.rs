use vstd::prelude::*;

verus! {

/// An IPv4 address, held as its 32 bits in network order
/// (the first octet is the most significant byte).
#[derive(Clone, Copy, Debug, PartialEq, Eq, Structural, Hash)]
pub struct Ipv4Addr {
    pub bits: u32,
}

/// An IPv6 address, held as its 128 bits in network order.
#[derive(Clone, Copy, Debug, PartialEq, Eq, Structural, Hash)]
pub struct Ipv6Addr {
    pub bits: u128,
}

/// An IP address of either family.
#[derive(Clone, Copy, Debug, PartialEq, Eq, Structural, Hash)]
pub enum IpAddr {
    V4(Ipv4Addr),
    V6(Ipv6Addr),
}

/// An IP address together with a port.
#[derive(Clone, Copy, Debug, PartialEq, Eq, Structural, Hash)]
pub struct SocketAddr {
    pub ip: IpAddr,
    pub port: u16,
}

/// The value of the four octets `a.b.c.d` read as one big-endian number.
pub open spec fn octets_value(a: u8, b: u8, c: u8, d: u8) -> int {
    a * 0x100_0000 + b * 0x1_0000 + c * 0x100 + d
}

impl Ipv4Addr {
    /// `127.0.0.1`.
    pub fn localhost() -> (r: Ipv4Addr)
        ensures
            r.bits == 0x7f00_0001,
    {
        Ipv4Addr { bits: 0x7f00_0001 }
    }

    /// `0.0.0.0`.
    pub fn unspecified() -> (r: Ipv4Addr)
        ensures
            r.bits == 0,
    {
        Ipv4Addr { bits: 0 }
    }

    /// The address `a.b.c.d`.
    pub fn new(a: u8, b: u8, c: u8, d: u8) -> (r: Ipv4Addr)
        ensures
            r.bits == octets_value(a, b, c, d),
    {
        let bits: u32 = (a as u32) * 0x100_0000 + (b as u32) * 0x1_0000 + (c as u32) * 0x100
            + (d as u32);
        Ipv4Addr { bits }
    }

    pub fn from_bits(bits: u32) -> (r: Ipv4Addr)
        ensures
            r.bits == bits,
    {
        Ipv4Addr { bits }
    }

    pub fn to_bits(&self) -> (r: u32)
        ensures
            r == self.bits,
    {
        self.bits
    }
}

impl Ipv6Addr {
    /// `::1`.
    pub fn localhost() -> (r: Ipv6Addr)
        ensures
            r.bits == 1,
    {
        Ipv6Addr { bits: 1 }
    }

    /// `::`.
    pub fn unspecified() -> (r: Ipv6Addr)
        ensures
            r.bits == 0,
    {
        Ipv6Addr { bits: 0 }
    }

    pub fn from_bits(bits: u128) -> (r: Ipv6Addr)
        ensures
            r.bits == bits,
    {
        Ipv6Addr { bits }
    }

    pub fn to_bits(&self) -> (r: u128)
        ensures
            r == self.bits,
    {
        self.bits
    }
}

impl IpAddr {
    pub fn is_ipv4(&self) -> (r: bool)
        ensures
            r == (*self is V4),
    {
        match self {
            IpAddr::V4(_) => true,
            IpAddr::V6(_) => false,
        }
    }

    pub fn is_ipv6(&self) -> (r: bool)
        ensures
            r == (*self is V6),
    {
        match self {
            IpAddr::V4(_) => false,
            IpAddr::V6(_) => true,
        }
    }
}

impl SocketAddr {
    pub fn new(ip: IpAddr, port: u16) -> (r: SocketAddr)
        ensures
            r.ip == ip,
            r.port == port,
    {
        SocketAddr { ip, port }
    }

    pub fn ip(&self) -> (r: IpAddr)
        ensures
            r == self.ip,
    {
        self.ip
    }

    pub fn port(&self) -> (r: u16)
        ensures
            r == self.port,
    {
        self.port
    }

    pub fn is_ipv6(&self) -> (r: bool)
        ensures
            r == (self.ip is V6),
    {
        self.ip.is_ipv6()
    }
}

/// The IPv4 address inside `ip`, if it is one.
pub fn get_v4(ip: IpAddr) -> (r: Option<Ipv4Addr>)
    ensures
        match ip {
            IpAddr::V4(v4) => r == Some(v4),
            IpAddr::V6(_) => r is None,
        },
{
    match ip {
        IpAddr::V4(v4) => Some(v4),
        IpAddr::V6(_) => None,
    }
}

/// The IPv6 address inside `ip`, if it is one.
pub fn get_v6(ip: IpAddr) -> (r: Option<Ipv6Addr>)
    ensures
        match ip {
            IpAddr::V4(_) => r is None,
            IpAddr::V6(v6) => r == Some(v6),
        },
{
    match ip {
        IpAddr::V4(_) => None,
        IpAddr::V6(v6) => Some(v6),
    }
}

/// Every address is of exactly one family: exactly one of `get_v4` and
/// `get_v6` finds an address in it, and that address is `ip` again.
pub proof fn lemma_ip_has_one_family(ip: IpAddr)
    ensures
        (ip is V4) != (ip is V6),
        ip is V4 ==> ip == IpAddr::V4(ip->V4_0),
        ip is V6 ==> ip == IpAddr::V6(ip->V6_0),
{
}

} // verus!
