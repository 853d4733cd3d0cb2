//! IP addresses and networks as plain bytes.

use vstd::prelude::*;
use crate::consts;
use crate::error::Error;

verus! {

/// An IPv4 or IPv6 address, held as its octets in network order.
#[derive(Debug, Clone, Copy, PartialEq, Eq)]
pub enum IpAddr {
    V4([u8; 4]),
    V6([u8; 16]),
}

impl IpAddr {
    /// The octets of the address in network order: 4 or 16 of them.
    pub open spec fn octets_spec(self) -> Seq<u8> {
        match self {
            IpAddr::V4(o) => o@,
            IpAddr::V6(o) => o@,
        }
    }

    /// The address family number: `AF_INET` or `AF_INET6`.
    pub open spec fn family_spec(self) -> u8 {
        match self {
            IpAddr::V4(_) => consts::AF_INET,
            IpAddr::V6(_) => consts::AF_INET6,
        }
    }

    /// The largest prefix length that a network of this family can have.
    pub open spec fn max_prefix_len_spec(self) -> u8 {
        match self {
            IpAddr::V4(_) => 32,
            IpAddr::V6(_) => 128,
        }
    }

    pub fn is_ipv4(&self) -> (b: bool)
        ensures
            b == (self is V4),
    {
        match self {
            IpAddr::V4(_) => true,
            IpAddr::V6(_) => false,
        }
    }

    pub fn is_ipv6(&self) -> (b: bool)
        ensures
            b == (self is V6),
    {
        match self {
            IpAddr::V4(_) => false,
            IpAddr::V6(_) => true,
        }
    }

    /// The address family number: `AF_INET` or `AF_INET6`.
    pub fn family(&self) -> (f: u8)
        ensures
            f == self.family_spec(),
    {
        match self {
            IpAddr::V4(_) => consts::AF_INET,
            IpAddr::V6(_) => consts::AF_INET6,
        }
    }

    /// The largest prefix length that a network of this family can have.
    pub fn max_prefix_len(&self) -> (n: u8)
        ensures
            n == self.max_prefix_len_spec(),
    {
        match self {
            IpAddr::V4(_) => 32,
            IpAddr::V6(_) => 128,
        }
    }

    /// The octets of the address in network order.
    pub fn octets(&self) -> (v: Vec<u8>)
        ensures
            v@ == self.octets_spec(),
    {
        let mut v: Vec<u8> = Vec::new();
        match self {
            IpAddr::V4(o) => {
                let mut i: usize = 0;
                while i < 4
                    invariant
                        i <= 4,
                        v@ == o@.subrange(0, i as int),
                    decreases 4 - i,
                {
                    v.push(o[i]);
                    i += 1;
                }
                assert(o@.subrange(0, 4) == o@);
            },
            IpAddr::V6(o) => {
                let mut i: usize = 0;
                while i < 16
                    invariant
                        i <= 16,
                        v@ == o@.subrange(0, i as int),
                    decreases 16 - i,
                {
                    v.push(o[i]);
                    i += 1;
                }
                assert(o@.subrange(0, 16) == o@);
            },
        }
        v
    }
}

impl IpAddr {
    /// The IPv4-mapped IPv6 address `::ffff:a.b.c.d` of an IPv4 address
    /// `a.b.c.d`; an IPv6 address is returned as it is.
    pub open spec fn to_ipv6_mapped_spec(self) -> IpAddr {
        match self {
            IpAddr::V4(o) => IpAddr::V6(
                [0, 0, 0, 0, 0, 0, 0, 0, 0, 0, 0xff, 0xff, o[0], o[1], o[2], o[3]],
            ),
            IpAddr::V6(_) => self,
        }
    }

    /// The IPv4 address `a.b.c.d` that an IPv6 address of the form
    /// `::a.b.c.d` or `::ffff:a.b.c.d` embeds. An IPv4 address is its own
    /// result; any other IPv6 address has none.
    pub open spec fn to_ipv4_spec(self) -> Option<IpAddr> {
        match self {
            IpAddr::V4(_) => Some(self),
            IpAddr::V6(o) => if (forall|i: int| 0 <= i < 10 ==> o@[i] == 0) && o[10] == o[11] && (
            o[10] == 0 || o[10] == 0xff) {
                Some(IpAddr::V4([o[12], o[13], o[14], o[15]]))
            } else {
                None
            },
        }
    }

    /// The IPv4-mapped IPv6 form of this address.
    pub fn to_ipv6_mapped(&self) -> (r: IpAddr)
        ensures
            r == self.to_ipv6_mapped_spec(),
    {
        match self {
            IpAddr::V4(o) => IpAddr::V6(
                [0, 0, 0, 0, 0, 0, 0, 0, 0, 0, 0xff, 0xff, o[0], o[1], o[2], o[3]],
            ),
            IpAddr::V6(_) => *self,
        }
    }

    /// The IPv4 address that this address embeds, if it embeds one.
    pub fn to_ipv4(&self) -> (r: Option<IpAddr>)
        ensures
            r == self.to_ipv4_spec(),
    {
        match self {
            IpAddr::V4(_) => Some(*self),
            IpAddr::V6(o) => {
                let mut i: usize = 0;
                while i < 10
                    invariant
                        i <= 10,
                        *self == IpAddr::V6(*o),
                        forall|j: int| 0 <= j < i ==> o@[j] == 0,
                    decreases 10 - i,
                {
                    if o[i] != 0 {
                        assert(o@[i as int] != 0);
                        return None;
                    }
                    i += 1;
                }
                if o[10] == o[11] && (o[10] == 0 || o[10] == 0xff) {
                    Some(IpAddr::V4([o[12], o[13], o[14], o[15]]))
                } else {
                    None
                }
            },
        }
    }
}

/// The byte that a network of prefix length `prefix_len` sets in octet `i`
/// to reach its last address: ones in every bit that the prefix leaves to
/// the host.
pub open spec fn host_mask(prefix_len: int, i: int) -> u8 {
    if prefix_len >= 8 * (i + 1) {
        0u8
    } else if prefix_len <= 8 * i {
        0xffu8
    } else {
        0xffu8 >> ((prefix_len - 8 * i) as u8)
    }
}

/// The last address of the network that `octets` and `prefix_len` name:
/// the address with every host bit set.
pub open spec fn broadcast_octets(octets: Seq<u8>, prefix_len: int) -> Seq<u8> {
    Seq::new(octets.len(), |i: int| octets[i] | host_mask(prefix_len, i))
}

/// Calls `ipnet::Ipv4Net::broadcast` on the network made by
/// `ipnet::Ipv4Net::new_assert` from the octets and the prefix length. The
/// contract claims that the result is the address with all host bits set,
/// which is the bitwise or of the address and the host mask that the crate
/// computes.
#[verifier::external_body]
fn ipv4_net_broadcast(octets: [u8; 4], prefix_len: u8) -> (r: [u8; 4])
    requires
        prefix_len <= 32,
    ensures
        r@ == broadcast_octets(octets@, prefix_len as int),
{
    ipnet::Ipv4Net::new_assert(octets.into(), prefix_len).broadcast().octets()
}

/// Calls `ipnet::Ipv6Net::broadcast` on the network made by
/// `ipnet::Ipv6Net::new_assert` from the octets and the prefix length. The
/// contract claims that the result is the address with all host bits set.
#[verifier::external_body]
fn ipv6_net_broadcast(octets: [u8; 16], prefix_len: u8) -> (r: [u8; 16])
    requires
        prefix_len <= 128,
    ensures
        r@ == broadcast_octets(octets@, prefix_len as int),
{
    ipnet::Ipv6Net::new_assert(octets.into(), prefix_len).broadcast().octets()
}

/// An IP address together with a prefix length that its family allows.
#[derive(Debug, Clone, Copy, PartialEq, Eq)]
pub struct IpNet {
    addr: IpAddr,
    prefix_len: u8,
}

impl IpNet {
    /// The address that the network was made from, host bits included.
    pub closed spec fn addr_spec(self) -> IpAddr {
        self.addr
    }

    /// The number of leading bits that name the network.
    pub closed spec fn prefix_len_spec(self) -> u8 {
        self.prefix_len
    }

    /// The network of the given address and prefix length.
    pub closed spec fn make(addr: IpAddr, prefix_len: u8) -> IpNet {
        IpNet { addr, prefix_len }
    }

    /// The prefix length is at most 32 for IPv4 and at most 128 for IPv6.
    #[verifier::type_invariant]
    pub closed spec fn wf(self) -> bool {
        self.prefix_len <= self.addr.max_prefix_len_spec()
    }

    /// A network of the given address and prefix length. A prefix length
    /// that the address family does not allow is rejected.
    pub fn new(addr: IpAddr, prefix_len: u8) -> (r: Result<IpNet, Error>)
        ensures
            prefix_len <= addr.max_prefix_len_spec() ==> r == Ok::<IpNet, Error>(
                IpNet::make(addr, prefix_len),
            ),
            prefix_len > addr.max_prefix_len_spec() ==> r == Err::<IpNet, Error>(
                Error::InvalidPrefixLength(prefix_len),
            ),
    {
        if prefix_len > addr.max_prefix_len() {
            Err(Error::InvalidPrefixLength(prefix_len))
        } else {
            Ok(IpNet { addr, prefix_len })
        }
    }

    /// The address that the network was made from, host bits included.
    pub fn addr(&self) -> (a: IpAddr)
        ensures
            a == self.addr_spec(),
    {
        self.addr
    }

    /// The number of leading bits that name the network.
    pub fn prefix_len(&self) -> (n: u8)
        ensures
            n == self.prefix_len_spec(),
            n <= self.addr_spec().max_prefix_len_spec(),
            self.wf(),
    {
        proof {
            use_type_invariant(self);
        }
        self.prefix_len
    }

    /// The last address of the network: for IPv4 its broadcast address. A
    /// network of one address (`/32`, `/128`) has that address as its last.
    pub fn broadcast(&self) -> (r: IpAddr)
        ensures
            r.octets_spec() == broadcast_octets(
                self.addr_spec().octets_spec(),
                self.prefix_len_spec() as int,
            ),
            r is V4 <==> self.addr_spec() is V4,
    {
        proof {
            use_type_invariant(self);
        }
        match self.addr {
            IpAddr::V4(o) => IpAddr::V4(ipv4_net_broadcast(o, self.prefix_len)),
            IpAddr::V6(o) => IpAddr::V6(ipv6_net_broadcast(o, self.prefix_len)),
        }
    }
}

impl Default for IpNet {
    /// The network `0.0.0.0/0`.
    fn default() -> (r: IpNet)
        ensures
            r == IpNet::make(IpAddr::V4([0, 0, 0, 0]), 0),
    {
        IpNet { addr: IpAddr::V4([0, 0, 0, 0]), prefix_len: 0 }
    }
}

/// What a network is made of can be read back from it, and it is well
/// formed where the prefix length fits the family of the address.
pub broadcast proof fn lemma_make(addr: IpAddr, prefix_len: u8)
    ensures
        (#[trigger] IpNet::make(addr, prefix_len)).addr_spec() == addr,
        IpNet::make(addr, prefix_len).prefix_len_spec() == prefix_len,
        IpNet::make(addr, prefix_len).wf() <==> prefix_len <= addr.max_prefix_len_spec(),
{
}

} // verus!
