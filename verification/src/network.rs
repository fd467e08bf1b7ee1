use vstd::prelude::*;
use vstd::arithmetic::power2::pow2;

use crate::net::{IpAddr, Ipv4Addr, Ipv6Addr};

verus! {

/// An address whose lowest `32 - netmask` bits are clear is the first
/// address of a network of `netmask` prefix bits.
pub open spec fn v4_host_bits_clear(bits: u32, netmask: u8) -> bool {
    netmask <= 32 && (bits as nat) % pow2((32 - netmask) as nat) == 0
}

/// As `v4_host_bits_clear`, for 128-bit addresses.
pub open spec fn v6_host_bits_clear(bits: u128, netmask: u8) -> bool {
    netmask <= 128 && (bits as nat) % pow2((128 - netmask) as nat) == 0
}

/// Why a network cannot be made from an address and a netmask.
#[derive(Clone, Copy, Debug, PartialEq, Eq, Structural)]
pub enum IpNetworkError {
    /// The netmask is longer than the address.
    NetmaskError(u8),
    /// The address has bits set after the prefix.
    HostBitsSet,
}

/// An IPv4 network: a prefix of `netmask` bits.
#[derive(Clone, Copy, Debug, PartialEq, Eq, Structural, Hash)]
pub struct Ipv4Network {
    network_address: Ipv4Addr,
    netmask: u8,
}

/// An IPv6 network: a prefix of `netmask` bits.
#[derive(Clone, Copy, Debug, PartialEq, Eq, Structural, Hash)]
pub struct Ipv6Network {
    network_address: Ipv6Addr,
    netmask: u8,
}

/// An IP network of either family.
#[derive(Clone, Copy, Debug, PartialEq, Eq, Structural, Hash)]
pub enum IpNetwork {
    V4(Ipv4Network),
    V6(Ipv6Network),
}

impl Ipv4Network {
    #[verifier::type_invariant]
    closed spec fn inv(self) -> bool {
        v4_host_bits_clear(self.network_address.bits, self.netmask)
    }

    pub closed spec fn address(self) -> Ipv4Addr {
        self.network_address
    }

    pub closed spec fn prefix(self) -> u8 {
        self.netmask
    }

    /// The network of the addresses that share the first `netmask` bits of
    /// `network_address`; an error where `netmask` is longer than 32 bits
    /// or `network_address` has bits set after the prefix.
    pub fn new(network_address: Ipv4Addr, netmask: u8) -> (r: Result<Ipv4Network, IpNetworkError>)
        ensures
            netmask > 32 ==> r is Err && r->Err_0 == IpNetworkError::NetmaskError(netmask),
            netmask <= 32 && !v4_host_bits_clear(network_address.bits, netmask) ==> r is Err
                && r->Err_0 == IpNetworkError::HostBitsSet,
            v4_host_bits_clear(network_address.bits, netmask) ==> r is Ok && r->Ok_0.address()
                == network_address && r->Ok_0.prefix() == netmask,
    {
        Self::checked(network_address, netmask)
    }

    /// `ip_network::Ipv4Network::new`, which refuses a netmask longer than
    /// 32 bits and an address with bits set after the prefix.
    #[verifier::external_body]
    fn checked(network_address: Ipv4Addr, netmask: u8) -> (r: Result<Ipv4Network, IpNetworkError>)
        ensures
            netmask > 32 ==> r is Err && r->Err_0 == IpNetworkError::NetmaskError(netmask),
            netmask <= 32 && !v4_host_bits_clear(network_address.bits, netmask) ==> r is Err
                && r->Err_0 == IpNetworkError::HostBitsSet,
            v4_host_bits_clear(network_address.bits, netmask) ==> r is Ok && r->Ok_0.address()
                == network_address && r->Ok_0.prefix() == netmask,
    {
        match ip_network::Ipv4Network::new(network_address.bits.into(), netmask) {
            Ok(_) => Ok(Ipv4Network { network_address, netmask }),
            Err(ip_network::IpNetworkError::NetmaskError(m)) => Err(IpNetworkError::NetmaskError(m)),
            Err(ip_network::IpNetworkError::HostBitsSet) => Err(IpNetworkError::HostBitsSet),
        }
    }

    pub fn network_address(&self) -> (r: Ipv4Addr)
        ensures
            r == self.address(),
    {
        self.network_address
    }

    pub fn netmask(&self) -> (r: u8)
        ensures
            r == self.prefix(),
    {
        self.netmask
    }
}

impl Ipv6Network {
    #[verifier::type_invariant]
    closed spec fn inv(self) -> bool {
        v6_host_bits_clear(self.network_address.bits, self.netmask)
    }

    pub closed spec fn address(self) -> Ipv6Addr {
        self.network_address
    }

    pub closed spec fn prefix(self) -> u8 {
        self.netmask
    }

    /// The network of the addresses that share the first `netmask` bits of
    /// `network_address`; an error where `netmask` is longer than 128 bits
    /// or `network_address` has bits set after the prefix.
    pub fn new(network_address: Ipv6Addr, netmask: u8) -> (r: Result<Ipv6Network, IpNetworkError>)
        ensures
            netmask > 128 ==> r is Err && r->Err_0 == IpNetworkError::NetmaskError(netmask),
            netmask <= 128 && !v6_host_bits_clear(network_address.bits, netmask) ==> r is Err
                && r->Err_0 == IpNetworkError::HostBitsSet,
            v6_host_bits_clear(network_address.bits, netmask) ==> r is Ok && r->Ok_0.address()
                == network_address && r->Ok_0.prefix() == netmask,
    {
        Self::checked(network_address, netmask)
    }

    /// `ip_network::Ipv6Network::new`, which refuses a netmask longer than
    /// 128 bits and an address with bits set after the prefix.
    #[verifier::external_body]
    fn checked(network_address: Ipv6Addr, netmask: u8) -> (r: Result<Ipv6Network, IpNetworkError>)
        ensures
            netmask > 128 ==> r is Err && r->Err_0 == IpNetworkError::NetmaskError(netmask),
            netmask <= 128 && !v6_host_bits_clear(network_address.bits, netmask) ==> r is Err
                && r->Err_0 == IpNetworkError::HostBitsSet,
            v6_host_bits_clear(network_address.bits, netmask) ==> r is Ok && r->Ok_0.address()
                == network_address && r->Ok_0.prefix() == netmask,
    {
        match ip_network::Ipv6Network::new(network_address.bits.into(), netmask) {
            Ok(_) => Ok(Ipv6Network { network_address, netmask }),
            Err(ip_network::IpNetworkError::NetmaskError(m)) => Err(IpNetworkError::NetmaskError(m)),
            Err(ip_network::IpNetworkError::HostBitsSet) => Err(IpNetworkError::HostBitsSet),
        }
    }

    pub fn network_address(&self) -> (r: Ipv6Addr)
        ensures
            r == self.address(),
    {
        self.network_address
    }

    pub fn netmask(&self) -> (r: u8)
        ensures
            r == self.prefix(),
    {
        self.netmask
    }
}

/// Whether `ip` lies in `net`: same family, and the same bits in the
/// network's prefix.
pub open spec fn network_contains(net: IpNetwork, ip: IpAddr) -> bool {
    match (net, ip) {
        (IpNetwork::V4(n), IpAddr::V4(a)) => (a.bits as nat) / pow2((32 - n.prefix()) as nat) == (
        n.address().bits as nat) / pow2((32 - n.prefix()) as nat),
        (IpNetwork::V6(n), IpAddr::V6(a)) => (a.bits as nat) / pow2((128 - n.prefix()) as nat) == (
        n.address().bits as nat) / pow2((128 - n.prefix()) as nat),
        _ => false,
    }
}

/// An address with every bit in a full-length prefix is a network of its
/// own; with a zero-length prefix only the zero address is; no netmask is
/// longer than the address.
pub proof fn lemma_host_bits_clear_edges(bits4: u32, bits6: u128)
    ensures
        v4_host_bits_clear(bits4, 32),
        v4_host_bits_clear(bits4, 0) <==> bits4 == 0,
        !v4_host_bits_clear(bits4, 33),
        v6_host_bits_clear(bits6, 128),
        v6_host_bits_clear(bits6, 0) <==> bits6 == 0,
        !v6_host_bits_clear(bits6, 129),
{
    vstd::arithmetic::power2::lemma2_to64();
    vstd::arithmetic::power2::lemma_pow2_adds(64, 64);
    assert(pow2(128) == 0x1_0000_0000_0000_0000 * 0x1_0000_0000_0000_0000);
    vstd::arithmetic::div_mod::lemma_small_mod(bits4 as nat, pow2(32));
    vstd::arithmetic::div_mod::lemma_small_mod(bits6 as nat, pow2(128));
}

/// A network contains its own first address; with a full-length prefix it
/// contains that address only, with a zero-length prefix every address of
/// its family; it contains no address of the other family.
pub proof fn lemma_network_contains_edges(n4: Ipv4Network, a4: Ipv4Addr, n6: Ipv6Network, a6: Ipv6Addr)
    ensures
        network_contains(IpNetwork::V4(n4), IpAddr::V4(n4.address())),
        n4.prefix() == 32 ==> (network_contains(IpNetwork::V4(n4), IpAddr::V4(a4)) <==> a4
            == n4.address()),
        n4.prefix() == 0 ==> network_contains(IpNetwork::V4(n4), IpAddr::V4(a4)),
        !network_contains(IpNetwork::V4(n4), IpAddr::V6(a6)),
        network_contains(IpNetwork::V6(n6), IpAddr::V6(n6.address())),
        n6.prefix() == 128 ==> (network_contains(IpNetwork::V6(n6), IpAddr::V6(a6)) <==> a6
            == n6.address()),
        n6.prefix() == 0 ==> network_contains(IpNetwork::V6(n6), IpAddr::V6(a6)),
        !network_contains(IpNetwork::V6(n6), IpAddr::V4(a4)),
{
    vstd::arithmetic::power2::lemma2_to64();
    vstd::arithmetic::power2::lemma_pow2_adds(64, 64);
    assert(pow2(128) == 0x1_0000_0000_0000_0000 * 0x1_0000_0000_0000_0000);
    if n4.prefix() == 32 {
        assert(pow2(0) == 1);
        vstd::arithmetic::div_mod::lemma_div_basics(a4.bits as int);
        vstd::arithmetic::div_mod::lemma_div_basics(n4.address().bits as int);
        assert(a4.bits == n4.address().bits ==> a4 == n4.address());
    }
    if n4.prefix() == 0 {
        vstd::arithmetic::div_mod::lemma_basic_div(a4.bits as int, pow2(32) as int);
        vstd::arithmetic::div_mod::lemma_basic_div(n4.address().bits as int, pow2(32) as int);
    }
    if n6.prefix() == 128 {
        assert(pow2(0) == 1);
        vstd::arithmetic::div_mod::lemma_div_basics(a6.bits as int);
        vstd::arithmetic::div_mod::lemma_div_basics(n6.address().bits as int);
        assert(a6.bits == n6.address().bits ==> a6 == n6.address());
    }
    if n6.prefix() == 0 {
        vstd::arithmetic::div_mod::lemma_basic_div(a6.bits as int, pow2(128) as int);
        vstd::arithmetic::div_mod::lemma_basic_div(n6.address().bits as int, pow2(128) as int);
    }
}

/// The length of `net`'s prefix.
pub open spec fn network_prefix(net: IpNetwork) -> u8 {
    match net {
        IpNetwork::V4(n) => n.prefix(),
        IpNetwork::V6(n) => n.prefix(),
    }
}

/// `net` is the most specific network among the keys of `entries` that
/// contains `ip`.
pub open spec fn is_longest_match(entries: Map<IpNetwork, u128>, ip: IpAddr, net: IpNetwork) -> bool {
    &&& entries.contains_key(net)
    &&& network_contains(net, ip)
    &&& forall|other: IpNetwork|
        #[trigger] entries.contains_key(other) && network_contains(other, ip) ==> network_prefix(
            other,
        ) <= network_prefix(net)
}

#[verifier::external_type_specification]
#[verifier::external_body]
#[verifier::reject_recursive_types(T)]
pub struct ExIpNetworkTable<T>(ip_network_table::IpNetworkTable<T>);

/// The networks in `table` and the value stored for each.
pub uninterp spec fn table_entries(table: ip_network_table::IpNetworkTable<u128>) -> Map<
    IpNetwork,
    u128,
>;

/// `IpNetworkTable::new`: an empty table.
#[verifier::external_body]
fn table_new() -> (r: ip_network_table::IpNetworkTable<u128>)
    ensures
        table_entries(r).dom() == Set::<IpNetwork>::empty(),
{
    ip_network_table::IpNetworkTable::new()
}

/// `IpNetworkTable::insert`: stores `data` for `network`, replacing and
/// returning the value stored for it before, if any.
#[verifier::external_body]
fn table_insert(table: &mut ip_network_table::IpNetworkTable<u128>, network: IpNetwork, data: u128) -> (r:
    Option<u128>)
    ensures
        table_entries(*final(table)) == table_entries(*old(table)).insert(network, data),
        table_entries(*old(table)).contains_key(network) ==> r == Some(
            table_entries(*old(table))[network],
        ),
        !table_entries(*old(table)).contains_key(network) ==> r is None,
{
    match network {
        IpNetwork::V4(n) => table.insert(
            ip_network::Ipv4Network::new(n.network_address.bits.into(), n.netmask).unwrap(),
            data,
        ),
        IpNetwork::V6(n) => table.insert(
            ip_network::Ipv6Network::new(n.network_address.bits.into(), n.netmask).unwrap(),
            data,
        ),
    }
}

/// `IpNetworkTable::longest_match_ipv4`: the most specific IPv4 network in
/// the table that contains `ip`, with its value; `None` where no network
/// contains it.
#[verifier::external_body]
fn table_longest_match_v4(table: &ip_network_table::IpNetworkTable<u128>, ip: Ipv4Addr) -> (r: Option<
    (Ipv4Network, u128),
>)
    ensures
        r matches Some((net, data)) ==> is_longest_match(
            table_entries(*table),
            IpAddr::V4(ip),
            IpNetwork::V4(net),
        ) && data == table_entries(*table)[IpNetwork::V4(net)],
        r is None ==> forall|net: IpNetwork| #[trigger]
            table_entries(*table).contains_key(net) ==> !network_contains(net, IpAddr::V4(ip)),
{
    table.longest_match_ipv4(ip.bits.into()).map(|(n, d)| {
        let network_address = Ipv4Addr { bits: n.network_address().into() };
        (Ipv4Network { network_address, netmask: n.netmask() }, *d)
    })
}

/// `IpNetworkTable::longest_match_ipv6`: the most specific IPv6 network in
/// the table that contains `ip`, with its value; `None` where no network
/// contains it.
#[verifier::external_body]
fn table_longest_match_v6(table: &ip_network_table::IpNetworkTable<u128>, ip: Ipv6Addr) -> (r: Option<
    (Ipv6Network, u128),
>)
    ensures
        r matches Some((net, data)) ==> is_longest_match(
            table_entries(*table),
            IpAddr::V6(ip),
            IpNetwork::V6(net),
        ) && data == table_entries(*table)[IpNetwork::V6(net)],
        r is None ==> forall|net: IpNetwork| #[trigger]
            table_entries(*table).contains_key(net) ==> !network_contains(net, IpAddr::V6(ip)),
{
    table.longest_match_ipv6(ip.bits.into()).map(|(n, d)| {
        let network_address = Ipv6Addr { bits: n.network_address().into() };
        (Ipv6Network { network_address, netmask: n.netmask() }, *d)
    })
}

/// `net` is written as its first address and prefix length: no bit after the
/// prefix is set, as every network the library makes is.
pub open spec fn is_canonical(net: IpNetwork) -> bool {
    match net {
        IpNetwork::V4(n) => v4_host_bits_clear(n.address().bits, n.prefix()),
        IpNetwork::V6(n) => v6_host_bits_clear(n.address().bits, n.prefix()),
    }
}

/// Two canonical networks of the same prefix length that contain the same
/// address are the same network.
proof fn lemma_same_prefix_same_network(a: IpNetwork, b: IpNetwork, ip: IpAddr)
    requires
        is_canonical(a),
        is_canonical(b),
        network_prefix(a) == network_prefix(b),
        network_contains(a, ip),
        network_contains(b, ip),
    ensures
        a == b,
{
    match (a, b) {
        (IpNetwork::V4(na), IpNetwork::V4(nb)) => {
            let k = pow2((32 - na.prefix()) as nat) as int;
            vstd::arithmetic::power2::lemma_pow2_pos((32 - na.prefix()) as nat);
            let x = na.address().bits as int;
            let y = nb.address().bits as int;
            vstd::arithmetic::div_mod::lemma_fundamental_div_mod(x, k);
            vstd::arithmetic::div_mod::lemma_fundamental_div_mod(y, k);
            assert(x == y);
            assert(na.network_address == nb.network_address);
            assert(na == nb);
        },
        (IpNetwork::V6(na), IpNetwork::V6(nb)) => {
            let k = pow2((128 - na.prefix()) as nat) as int;
            vstd::arithmetic::power2::lemma_pow2_pos((128 - na.prefix()) as nat);
            let x = na.address().bits as int;
            let y = nb.address().bits as int;
            vstd::arithmetic::div_mod::lemma_fundamental_div_mod(x, k);
            vstd::arithmetic::div_mod::lemma_fundamental_div_mod(y, k);
            assert(x == y);
            assert(na.network_address == nb.network_address);
            assert(na == nb);
        },
        _ => {},
    }
}

/// Among canonical networks there is at most one most specific network that
/// contains an address: the routing of an address is decided.
pub proof fn lemma_longest_match_unique(entries: Map<IpNetwork, u128>, ip: IpAddr, a: IpNetwork, b: IpNetwork)
    requires
        forall|n: IpNetwork| #[trigger] entries.contains_key(n) ==> is_canonical(n),
        is_longest_match(entries, ip, a),
        is_longest_match(entries, ip, b),
    ensures
        a == b,
{
    assert(entries.contains_key(a));
    assert(entries.contains_key(b));
    lemma_same_prefix_same_network(a, b, ip);
}

/// The peers of a tunnel by the networks that are routed to them; a peer is
/// known by its connection id.
pub struct PeersByIp {
    table: ip_network_table::IpNetworkTable<u128>,
}

impl PeersByIp {
    /// Network to peer.
    pub closed spec fn view(&self) -> Map<IpNetwork, u128> {
        table_entries(self.table)
    }

    /// Every routed network is canonical.
    pub open spec fn wf(&self) -> bool {
        forall|n: IpNetwork| #[trigger] self.view().contains_key(n) ==> is_canonical(n)
    }

    /// No peers.
    pub fn new() -> (r: Self)
        ensures
            r.view() == Map::<IpNetwork, u128>::empty(),
            r.wf(),
    {
        PeersByIp { table: table_new() }
    }

    /// Routes `network` to `peer`; returns the peer it was routed to before,
    /// if any.
    pub fn insert(&mut self, network: IpNetwork, peer: u128) -> (r: Option<u128>)
        requires
            old(self).wf(),
        ensures
            final(self).wf(),
            final(self).view() == old(self).view().insert(network, peer),
            r == (if old(self).view().contains_key(network) {
                Some(old(self).view()[network])
            } else {
                None
            }),
    {
        match network {
            IpNetwork::V4(n) => {
                proof {
                    use_type_invariant(&n);
                    assert(is_canonical(network));
                }
            },
            IpNetwork::V6(n) => {
                proof {
                    use_type_invariant(&n);
                    assert(is_canonical(network));
                }
            },
        }
        let r = table_insert(&mut self.table, network, peer);
        assert forall|n: IpNetwork| #[trigger] self.view().contains_key(n) implies is_canonical(n) by {
            if n != network {
                assert(old(self).view().contains_key(n));
            }
        }
        r
    }
}

/// The peer that traffic for `ip` goes to: the one routed the most specific
/// network that contains `ip`; `None` where no routed network contains it.
pub fn peer_by_ip(peers_by_ip: &PeersByIp, ip: IpAddr) -> (r: Option<u128>)
    requires
        peers_by_ip.wf(),
    ensures
        r matches Some(peer) ==> exists|net: IpNetwork|
            is_longest_match(peers_by_ip.view(), ip, net) && peers_by_ip.view()[net] == peer,
        r matches Some(peer) ==> forall|net: IpNetwork|
            is_longest_match(peers_by_ip.view(), ip, net) ==> peers_by_ip.view()[net] == peer,
        r is None ==> forall|net: IpNetwork| #[trigger]
            peers_by_ip.view().contains_key(net) ==> !network_contains(net, ip),
{
    match ip {
        IpAddr::V4(a) => match table_longest_match_v4(&peers_by_ip.table, a) {
            Some((net, peer)) => {
                assert(is_longest_match(peers_by_ip.view(), ip, IpNetwork::V4(net)));
                assert forall|other: IpNetwork| is_longest_match(peers_by_ip.view(), ip, other)
                    implies peers_by_ip.view()[other] == peer by {
                    lemma_longest_match_unique(peers_by_ip.view(), ip, IpNetwork::V4(net), other);
                }
                Some(peer)
            },
            None => None,
        },
        IpAddr::V6(a) => match table_longest_match_v6(&peers_by_ip.table, a) {
            Some((net, peer)) => {
                assert(is_longest_match(peers_by_ip.view(), ip, IpNetwork::V6(net)));
                assert forall|other: IpNetwork| is_longest_match(peers_by_ip.view(), ip, other)
                    implies peers_by_ip.view()[other] == peer by {
                    lemma_longest_match_unique(peers_by_ip.view(), ip, IpNetwork::V6(net), other);
                }
                Some(peer)
            },
            None => None,
        },
    }
}

} // verus!
