use vstd::prelude::*;

use crate::network::{IpNetwork, Ipv4Network, Ipv6Network};

verus! {

/// The name of the TUN adapter (the system appends " Tunnel" to it).
pub fn tun_name() -> (r: &'static str)
    ensures
        r@ == "Firezone"@,
{
    "Firezone"
}

/// Puts a packet read from the device into `buf`: the packet's bytes go to
/// the front of `buf` and their number is returned. A packet longer than
/// `buf` is dropped: `buf` is left as it is and 0 returned.
pub fn copy_packet_into(buf: &mut [u8], packet: &[u8]) -> (r: usize)
    ensures
        final(buf)@.len() == old(buf)@.len(),
        packet@.len() > old(buf)@.len() ==> r == 0 && final(buf)@ == old(buf)@,
        packet@.len() <= old(buf)@.len() ==> {
            &&& r == packet@.len()
            &&& final(buf)@ == packet@ + old(buf)@.skip(packet@.len() as int)
        },
{
    let len = packet.len();
    if len > buf.len() {
        return 0;
    }
    let mut i: usize = 0;
    while i < len
        invariant
            len == packet@.len(),
            len <= buf@.len(),
            buf@.len() == old(buf)@.len(),
            i <= len,
            forall|j: int| 0 <= j < i ==> buf@[j] == packet@[j],
            forall|j: int| len <= j < buf@.len() ==> buf@[j] == old(buf)@[j],
        decreases len - i,
    {
        buf[i] = packet[i];
        i = i + 1;
    }
    assert(buf@ =~= packet@ + old(buf)@.skip(len as int));
    len
}

/// The IPv4 networks among `routes`, in order.
pub open spec fn v4_routes(routes: Seq<IpNetwork>) -> Seq<Ipv4Network>
    decreases routes.len(),
{
    if routes.len() == 0 {
        seq![]
    } else {
        let rest = v4_routes(routes.drop_last());
        match routes.last() {
            IpNetwork::V4(n) => rest.push(n),
            IpNetwork::V6(_) => rest,
        }
    }
}

/// The IPv6 networks among `routes`, in order.
pub open spec fn v6_routes(routes: Seq<IpNetwork>) -> Seq<Ipv6Network>
    decreases routes.len(),
{
    if routes.len() == 0 {
        seq![]
    } else {
        let rest = v6_routes(routes.drop_last());
        match routes.last() {
            IpNetwork::V4(_) => rest,
            IpNetwork::V6(n) => rest.push(n),
        }
    }
}

/// The routes of the TUN device as the system is told of them: the IPv4
/// networks and the IPv6 networks among `routes`, each in order.
pub fn routes_by_family(routes: &Vec<IpNetwork>) -> (r: (Vec<Ipv4Network>, Vec<Ipv6Network>))
    ensures
        r.0@ == v4_routes(routes@),
        r.1@ == v6_routes(routes@),
{
    let mut v4: Vec<Ipv4Network> = Vec::new();
    let mut v6: Vec<Ipv6Network> = Vec::new();
    let mut i: usize = 0;
    while i < routes.len()
        invariant
            i <= routes@.len(),
            v4@ == v4_routes(routes@.take(i as int)),
            v6@ == v6_routes(routes@.take(i as int)),
        decreases routes@.len() - i,
    {
        proof {
            assert(routes@.take(i + 1).drop_last() =~= routes@.take(i as int));
        }
        match routes[i] {
            IpNetwork::V4(n) => v4.push(n),
            IpNetwork::V6(n) => v6.push(n),
        }
        i = i + 1;
    }
    proof {
        assert(routes@.take(routes@.len() as int) =~= routes@);
    }
    (v4, v6)
}

/// Splitting routes by family loses none and invents none: there are as many
/// IPv4 and IPv6 routes together as routes, and each route is among the ones
/// of its family.
pub proof fn lemma_routes_partition(routes: Seq<IpNetwork>)
    ensures
        v4_routes(routes).len() + v6_routes(routes).len() == routes.len(),
        forall|i: int|
            0 <= i < routes.len() ==> match #[trigger] routes[i] {
                IpNetwork::V4(n) => v4_routes(routes).contains(n),
                IpNetwork::V6(n) => v6_routes(routes).contains(n),
            },
    decreases routes.len(),
{
    if routes.len() > 0 {
        let init = routes.drop_last();
        lemma_routes_partition(init);
        assert forall|i: int|
            0 <= i < routes.len() implies match #[trigger] routes[i] {
                IpNetwork::V4(n) => v4_routes(routes).contains(n),
                IpNetwork::V6(n) => v6_routes(routes).contains(n),
            } by {
            if i < routes.len() - 1 {
                assert(routes[i] == init[i]);
                match routes[i] {
                    IpNetwork::V4(n) => {
                        let k = choose|k: int| 0 <= k < v4_routes(init).len() && v4_routes(init)[k] == n;
                        assert(v4_routes(routes)[k] == n);
                    },
                    IpNetwork::V6(n) => {
                        let k = choose|k: int| 0 <= k < v6_routes(init).len() && v6_routes(init)[k] == n;
                        assert(v6_routes(routes)[k] == n);
                    },
                }
            } else {
                match routes[i] {
                    IpNetwork::V4(n) => {
                        assert(v4_routes(routes).last() == n);
                    },
                    IpNetwork::V6(n) => {
                        assert(v6_routes(routes).last() == n);
                    },
                }
            }
        }
    }
}

} // verus!
