//! Network addresses as plain numbers.

use vstd::prelude::*;

verus! {

/// An IP address: the 32 or 128 bits, most significant first.
#[derive(Clone, Copy, Debug, PartialEq, Eq, Structural)]
pub enum IpAddr {
    V4(u32),
    V6(u128),
}

/// An IP address with a port, and with the flow and the scope that an IPv6
/// socket address carries (zero for IPv4).
#[derive(Clone, Copy, Debug, PartialEq, Eq, Structural)]
pub struct SocketAddr {
    pub ip: IpAddr,
    pub port: u16,
    pub flowinfo: u32,
    pub scope_id: u32,
}

impl IpAddr {
    /// `127.0.0.0/8`, and `::1`.
    pub open spec fn loopback(self) -> bool {
        match self {
            IpAddr::V4(bits) => bits / 0x100_0000 == 127,
            IpAddr::V6(bits) => bits == 1,
        }
    }

    /// The address as a key: whether it is IPv6, and its bits.
    pub open spec fn key(self) -> (bool, u128) {
        match self {
            IpAddr::V4(bits) => (false, bits as u128),
            IpAddr::V6(bits) => (true, bits),
        }
    }

    pub fn is_loopback(&self) -> (res: bool)
        ensures
            res == self.loopback(),
    {
        match *self {
            IpAddr::V4(bits) => bits / 0x100_0000 == 127,
            IpAddr::V6(bits) => bits == 1,
        }
    }

    /// The address as the key under which tables keep it.
    pub fn table_key(&self) -> (res: (bool, u128))
        ensures
            res == self.key(),
    {
        match *self {
            IpAddr::V4(bits) => (false, bits as u128),
            IpAddr::V6(bits) => (true, bits),
        }
    }
}

/// Two addresses have the same key only if they are the same address.
pub proof fn law_keys_tell_addresses_apart(a: IpAddr, b: IpAddr)
    ensures
        a.key() == b.key() <==> a == b,
{
}

/// The loopback addresses are those from 127.0.0.0 to 127.255.255.255, and the
/// IPv6 address 1. Every other address is none.
pub proof fn law_loopback_addresses(addr: IpAddr)
    ensures
        addr matches IpAddr::V4(bits) ==> (addr.loopback() <==> 0x7f00_0000 <= bits
            <= 0x7fff_ffff),
        addr matches IpAddr::V6(bits) ==> (addr.loopback() <==> bits == 1),
{
}

/// An address is kept under its own bits, apart from the other kind.
pub proof fn law_keys_are_the_bits(addr: IpAddr)
    ensures
        addr matches IpAddr::V4(bits) ==> addr.key().1 == bits && !addr.key().0,
        addr matches IpAddr::V6(bits) ==> addr.key().1 == bits && addr.key().0,
{
}

} // verus!
