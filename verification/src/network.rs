//! Addresses, networks and the set of networks whose members are trusted.

use vstd::arithmetic::power2::{lemma2_to64, pow2};
use vstd::prelude::*;

verus! {

/// An IP address as a number: the four or sixteen octets, most significant
/// first.
#[derive(Clone, Copy, Debug, PartialEq, Eq, Structural)]
pub enum IpAddress {
    /// An IPv4 address.
    V4(u32),
    /// An IPv6 address.
    V6(u128),
}

/// Number of bits in an address of the family of `addr`.
pub open spec fn width(addr: IpAddress) -> nat {
    match addr {
        IpAddress::V4(_) => 32,
        IpAddress::V6(_) => 128,
    }
}

/// Whether `a` and `b` agree in all but their lowest `host_bits` bits.
pub open spec fn same_prefix(a: nat, b: nat, host_bits: nat) -> bool {
    a / pow2(host_bits) == b / pow2(host_bits)
}

/// Whether `ip` lies in the network of `addr` with the first `prefix` bits
/// fixed. Addresses of different families never match.
pub open spec fn prefix_matches(addr: IpAddress, prefix: nat, ip: IpAddress) -> bool {
    match (addr, ip) {
        (IpAddress::V4(n), IpAddress::V4(a)) => same_prefix(
            n as nat,
            a as nat,
            (32 - prefix) as nat,
        ),
        (IpAddress::V6(n), IpAddress::V6(a)) => same_prefix(
            n as nat,
            a as nat,
            (128 - prefix) as nat,
        ),
        _ => false,
    }
}

/// `Ipv4Network::new` and `Ipv4Network::contains` of ipnetwork: the network
/// masks both addresses down to their first `prefix` bits and compares them.
#[verifier::external_body]
fn v4_network_contains(addr: u32, prefix: u8, ip: u32) -> (r: bool)
    requires
        prefix <= 32,
    ensures
        r == same_prefix(addr as nat, ip as nat, (32 - prefix) as nat),
{
    match ipnetwork::Ipv4Network::new(addr.into(), prefix) {
        Ok(network) => network.contains(ip.into()),
        Err(_) => false,
    }
}

/// `Ipv6Network::new` and `Ipv6Network::contains` of ipnetwork: the network
/// masks both addresses down to their first `prefix` bits and compares them.
#[verifier::external_body]
fn v6_network_contains(addr: u128, prefix: u8, ip: u128) -> (r: bool)
    requires
        prefix <= 128,
    ensures
        r == same_prefix(addr as nat, ip as nat, (128 - prefix) as nat),
{
    match ipnetwork::Ipv6Network::new(addr.into(), prefix) {
        Ok(network) => network.contains(ip.into()),
        Err(_) => false,
    }
}

/// An address prefix: an address and the number of its leading bits that a
/// member shares with it.
#[derive(Clone, Copy, Debug, PartialEq, Eq)]
pub struct IpNetwork {
    addr: IpAddress,
    prefix: u8,
}

impl IpNetwork {
    #[verifier::type_invariant]
    spec fn prefix_fits(self) -> bool {
        self.prefix <= width(self.addr)
    }

    /// The address that the network was made from.
    pub closed spec fn address(self) -> IpAddress {
        self.addr
    }

    /// The number of leading bits that are fixed.
    pub closed spec fn prefix_len(self) -> nat {
        self.prefix as nat
    }

    /// Whether `ip` is a member of the network.
    pub open spec fn matches(self, ip: IpAddress) -> bool {
        prefix_matches(self.address(), self.prefix_len(), ip)
    }

    /// The network of `addr` with `prefix` leading bits fixed, or `None` where
    /// `prefix` is more than the address has bits.
    pub fn new(addr: IpAddress, prefix: u8) -> (r: Option<Self>)
        ensures
            r is Some <==> prefix <= width(addr),
            r is Some ==> r->0.address() == addr && r->0.prefix_len() == prefix,
    {
        let bits: u8 = match addr {
            IpAddress::V4(_) => 32,
            IpAddress::V6(_) => 128,
        };
        if prefix <= bits {
            Some(IpNetwork { addr, prefix })
        } else {
            None
        }
    }

    /// The network that holds `addr` and nothing else.
    pub fn host(addr: IpAddress) -> (r: Self)
        ensures
            r.address() == addr,
            r.prefix_len() == width(addr),
    {
        match addr {
            IpAddress::V4(_) => IpNetwork { addr, prefix: 32 },
            IpAddress::V6(_) => IpNetwork { addr, prefix: 128 },
        }
    }

    /// The address that the network was made from.
    pub fn ip(&self) -> (r: IpAddress)
        ensures
            r == self.address(),
    {
        self.addr
    }

    /// The number of leading bits that are fixed.
    pub fn prefix(&self) -> (r: u8)
        ensures
            r == self.prefix_len(),
            r <= width(self.address()),
    {
        proof {
            use_type_invariant(self);
        }
        self.prefix
    }

    /// Whether `ip` is a member of the network.
    pub fn contains(&self, ip: IpAddress) -> (r: bool)
        ensures
            r == self.matches(ip),
    {
        proof {
            use_type_invariant(self);
        }
        match (self.addr, ip) {
            (IpAddress::V4(n), IpAddress::V4(a)) => v4_network_contains(n, self.prefix, a),
            (IpAddress::V6(n), IpAddress::V6(a)) => v6_network_contains(n, self.prefix, a),
            _ => false,
        }
    }
}

/// A network of full prefix length holds its own address and no other.
pub proof fn lemma_host_network_matches(net: IpNetwork, ip: IpAddress)
    requires
        net.prefix_len() == width(net.address()),
    ensures
        net.matches(ip) <==> ip == net.address(),
{
    lemma2_to64();
    match (net.address(), ip) {
        (IpAddress::V4(n), IpAddress::V4(a)) => {
            assert(same_prefix(n as nat, a as nat, 0) <==> n == a);
        },
        (IpAddress::V6(n), IpAddress::V6(a)) => {
            assert(same_prefix(n as nat, a as nat, 0) <==> n == a);
        },
        _ => {},
    }
}

/// Whether one of `networks` holds `ip`.
pub open spec fn trusted_by(networks: Seq<IpNetwork>, ip: IpAddress) -> bool {
    exists|k: int| 0 <= k < networks.len() && (#[trigger] networks[k]).matches(ip)
}

/// The exact-match networks of `addrs`, one for each, in order.
pub open spec fn host_networks(networks: Seq<IpNetwork>, addrs: Seq<IpAddress>) -> bool {
    &&& networks.len() == addrs.len()
    &&& forall|k: int|
        0 <= k < addrs.len() ==> (#[trigger] networks[k]).address() == addrs[k]
            && networks[k].prefix_len() == width(addrs[k])
}

/// A set of IP networks.
#[derive(Debug, Clone)]
pub struct IpNetworks {
    networks: Vec<IpNetwork>,
}

impl View for IpNetworks {
    type V = Seq<IpNetwork>;

    closed spec fn view(&self) -> Seq<IpNetwork> {
        self.networks@
    }
}

impl IpNetworks {
    /// Checks whether `addr` is part of any network of the set.
    pub fn contains(&self, addr: &IpAddress) -> (r: bool)
        ensures
            r == trusted_by(self@, *addr),
    {
        let mut i: usize = 0;
        while i < self.networks.len()
            invariant
                i <= self.networks@.len(),
                forall|k: int| 0 <= k < i ==> !(#[trigger] self.networks@[k]).matches(*addr),
            decreases self.networks@.len() - i,
        {
            if self.networks[i].contains(*addr) {
                return true;
            }
            i += 1;
        }
        false
    }

    /// Builds the set that holds each of `addrs` as an exact-match network.
    pub fn from_ipaddr_iter(addrs: &[IpAddress]) -> (r: Self)
        ensures
            host_networks(r@, addrs@),
    {
        let mut networks: Vec<IpNetwork> = Vec::new();
        let mut i: usize = 0;
        while i < addrs.len()
            invariant
                i <= addrs@.len(),
                host_networks(networks@, addrs@.take(i as int)),
            decreases addrs@.len() - i,
        {
            networks.push(IpNetwork::host(addrs[i]));
            i += 1;
        }
        assert(addrs@.take(i as int) =~= addrs@);
        IpNetworks { networks }
    }

    /// Builds the set of the given networks.
    pub fn from_networks(networks: Vec<IpNetwork>) -> (r: Self)
        ensures
            r@ == networks@,
    {
        IpNetworks { networks }
    }
}

impl vstd::std_specs::convert::FromSpecImpl<Vec<IpAddress>> for IpNetworks {
    open spec fn obeys_from_spec() -> bool {
        false
    }

    open spec fn from_spec(addrs: Vec<IpAddress>) -> Self {
        arbitrary()
    }
}

impl From<Vec<IpAddress>> for IpNetworks {
    /// Builds the set that holds each of `addrs` as an exact-match network.
    fn from(addrs: Vec<IpAddress>) -> (r: Self)
        ensures
            host_networks(r@, addrs@),
    {
        Self::from_ipaddr_iter(addrs.as_slice())
    }
}

impl<'a> vstd::std_specs::convert::FromSpecImpl<&'a Vec<IpAddress>> for IpNetworks {
    open spec fn obeys_from_spec() -> bool {
        false
    }

    open spec fn from_spec(addrs: &'a Vec<IpAddress>) -> Self {
        arbitrary()
    }
}

impl<'a> From<&'a Vec<IpAddress>> for IpNetworks {
    /// Builds the set that holds each of `addrs` as an exact-match network.
    fn from(addrs: &'a Vec<IpAddress>) -> (r: Self)
        ensures
            host_networks(r@, addrs@),
    {
        Self::from_ipaddr_iter(addrs.as_slice())
    }
}

/// The set made of addresses trusts exactly these addresses.
pub proof fn lemma_host_networks_trust(networks: Seq<IpNetwork>, addrs: Seq<IpAddress>, ip: IpAddress)
    requires
        host_networks(networks, addrs),
    ensures
        trusted_by(networks, ip) <==> addrs.contains(ip),
{
    if trusted_by(networks, ip) {
        let k = choose|k: int| 0 <= k < networks.len() && (#[trigger] networks[k]).matches(ip);
        lemma_host_network_matches(networks[k], ip);
        assert(addrs[k] == ip);
    }
    if addrs.contains(ip) {
        let k = choose|k: int| 0 <= k < addrs.len() && addrs[k] == ip;
        lemma_host_network_matches(networks[k], ip);
        assert(networks[k].matches(ip));
    }
}

} // verus!
