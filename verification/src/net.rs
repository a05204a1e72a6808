//! Addresses, and which of them are reachable from anywhere.

use vstd::prelude::*;

verus! {

/// An IP address, as the number that its bytes make, most significant first.
#[derive(Debug, Clone, Copy, PartialEq, Eq, Structural)]
pub enum IpAddr {
    V4(u32),
    V6(u128),
}

#[derive(Debug, Clone, Copy, PartialEq, Eq, Structural)]
pub struct SocketAddr {
    pub ip: IpAddr,
    pub port: u16,
}

/// The address is one of the `size` addresses from `base` on.
pub open spec fn in_block(addr: u32, base: u32, size: int) -> bool {
    base <= addr < base + size
}

/// Whether an IPv4 address is globally routable: 192.0.0.9 and 192.0.0.10 are;
/// other addresses are unless they are private (10/8, 172.16/12, 192.168/16),
/// loopback (127/8), link local (169.254/16), broadcast, for documentation
/// (192.0.2/24, 198.51.100/24, 203.0.113/24), shared (100.64/10), for protocol
/// assignments (192.0.0/24), reserved (240/4), for benchmarks (198.18/15) or
/// in the zero block (0/8).
pub open spec fn is_global_v4(addr: u32) -> bool {
    ||| addr == 0xc000_0009 || addr == 0xc000_000a
    ||| {
        &&& !in_block(addr, 0x0a00_0000, 0x100_0000)
        &&& !in_block(addr, 0xac10_0000, 0x10_0000)
        &&& !in_block(addr, 0xc0a8_0000, 0x1_0000)
        &&& !in_block(addr, 0x7f00_0000, 0x100_0000)
        &&& !in_block(addr, 0xa9fe_0000, 0x1_0000)
        &&& !in_block(addr, 0xc000_0200, 0x100)
        &&& !in_block(addr, 0xc633_6400, 0x100)
        &&& !in_block(addr, 0xcb00_7100, 0x100)
        &&& !in_block(addr, 0x6440_0000, 0x40_0000)
        &&& !in_block(addr, 0xc000_0000, 0x100)
        &&& !in_block(addr, 0xf000_0000, 0x1000_0000)
        &&& !in_block(addr, 0xc612_0000, 0x2_0000)
        &&& !in_block(addr, 0, 0x100_0000)
    }
}

/// The first 16 bits of an IPv6 address.
pub open spec fn first_segment(addr: u128) -> int {
    addr as int / 0x1_0000_0000_0000_0000_0000_0000_0000
}

/// Whether an IPv6 address is globally routable: a multicast address is if its
/// scope is the global one; any other address is unless it is loopback,
/// unspecified, link local (fe80::/10), unique local (fc00::/7) or for
/// documentation (2001:db8::/32).
pub open spec fn is_global_v6(addr: u128) -> bool {
    let segment = first_segment(addr);
    if segment >= 0xff00 {
        segment % 16 == 14
    } else {
        &&& addr != 1
        &&& addr != 0
        &&& !(0xfe80 <= segment < 0xfec0)
        &&& !(0xfc00 <= segment < 0xfe00)
        &&& addr as int / 0x1_0000_0000_0000_0000_0000_0000 != 0x2001_0db8
    }
}

/// `ip_rfc::global_v4`: whether an address is globally routable.
#[verifier::external_body]
fn ip_rfc_global_v4(addr: u32) -> (global: bool)
    ensures
        global == is_global_v4(addr),
{
    ip_rfc::global_v4(&addr.into())
}

/// `ip_rfc::global_v6`: whether an address is globally routable.
#[verifier::external_body]
fn ip_rfc_global_v6(addr: u128) -> (global: bool)
    ensures
        global == is_global_v6(addr),
{
    ip_rfc::global_v6(&addr.into())
}

impl IpAddr {
    pub open spec fn spec_is_global(self) -> bool {
        match self {
            IpAddr::V4(addr) => is_global_v4(addr),
            IpAddr::V6(addr) => is_global_v6(addr),
        }
    }

    pub open spec fn spec_is_unspecified(self) -> bool {
        match self {
            IpAddr::V4(addr) => addr == 0,
            IpAddr::V6(addr) => addr == 0,
        }
    }

    /// Whether the address is globally routable.
    pub fn is_global(&self) -> (global: bool)
        ensures
            global == self.spec_is_global(),
    {
        match self {
            IpAddr::V4(addr) => ip_rfc_global_v4(*addr),
            IpAddr::V6(addr) => ip_rfc_global_v6(*addr),
        }
    }

    /// Whether the address stands for all addresses of the machine.
    pub fn is_unspecified(&self) -> (unspecified: bool)
        ensures
            unspecified == self.spec_is_unspecified(),
    {
        match self {
            IpAddr::V4(addr) => *addr == 0,
            IpAddr::V6(addr) => *addr == 0,
        }
    }

    /// A server on such an address may not do without a certificate.
    pub open spec fn spec_requires_tls(self) -> bool {
        self.spec_is_global() || self.spec_is_unspecified()
    }

    pub fn requires_tls(&self) -> (required: bool)
        ensures
            required == self.spec_requires_tls(),
    {
        self.is_global() || self.is_unspecified()
    }
}

/// Addresses of private networks, of this machine, of its links and of
/// carrier-grade networks need no certificate.
pub proof fn private_addresses_need_no_tls(addr: u32)
    requires
        ({
            ||| in_block(addr, 0x0a00_0000, 0x100_0000)
            ||| in_block(addr, 0xac10_0000, 0x10_0000)
            ||| in_block(addr, 0xc0a8_0000, 0x1_0000)
            ||| in_block(addr, 0x7f00_0000, 0x100_0000)
            ||| in_block(addr, 0xa9fe_0000, 0x1_0000)
            ||| in_block(addr, 0x6440_0000, 0x40_0000)
        }),
    ensures
        !IpAddr::V4(addr).spec_requires_tls(),
{
}

/// Addresses of this machine, of its links and of local networks need no
/// certificate, in IPv6 either.
pub proof fn local_addresses_need_no_tls(addr: u128)
    requires
        addr == 1 || 0xfe80 <= first_segment(addr) < 0xfec0 || 0xfc00 <= first_segment(addr)
            < 0xfe00,
    ensures
        !IpAddr::V6(addr).spec_requires_tls(),
{
}

/// A server needs a certificate on every address that can be reached from
/// anywhere, and where it listens on all.
pub proof fn reachable_addresses_need_tls(ip: IpAddr)
    ensures
        ip matches IpAddr::V4(addr) ==> (ip.spec_requires_tls() <==> is_global_v4(addr) || addr
            == 0),
        ip matches IpAddr::V6(addr) ==> (ip.spec_requires_tls() <==> is_global_v6(addr) || addr
            == 0),
        ip.spec_is_unspecified() ==> ip.spec_requires_tls(),
        ip.spec_is_unspecified() <==> ip == IpAddr::V4(0) || ip == IpAddr::V6(0),
{
}

} // verus!
