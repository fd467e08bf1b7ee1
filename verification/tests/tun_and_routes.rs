use connlib::net::{get_v4, get_v6, IpAddr, Ipv4Addr, Ipv6Addr};
use connlib::network::{peer_by_ip, IpNetwork, IpNetworkError, Ipv4Network, Ipv6Network, PeersByIp};
use connlib::tun::{copy_packet_into, routes_by_family, tun_name};

#[test]
fn ip_family_accessors() {
    let a = IpAddr::V4(Ipv4Addr::new(10, 1, 2, 3));
    let b = IpAddr::V6(Ipv6Addr::localhost());
    assert_eq!(get_v4(a), Some(Ipv4Addr::new(10, 1, 2, 3)));
    assert_eq!(get_v6(a), None);
    assert_eq!(get_v4(b), None);
    assert_eq!(get_v6(b), Some(Ipv6Addr::from_bits(1)));
}

#[test]
fn ipv4_octets_are_big_endian() {
    assert_eq!(Ipv4Addr::new(127, 0, 0, 1), Ipv4Addr::localhost());
    assert_eq!(Ipv4Addr::new(192, 168, 1, 2).to_bits(), 0xc0a8_0102);
}

#[test]
fn network_rejects_long_netmask() {
    assert_eq!(Ipv4Network::new(Ipv4Addr::new(10, 0, 0, 0), 33), Err(IpNetworkError::NetmaskError(33)));
    assert_eq!(Ipv6Network::new(Ipv6Addr::from_bits(0), 129), Err(IpNetworkError::NetmaskError(129)));
}

#[test]
fn network_rejects_host_bits() {
    assert_eq!(Ipv4Network::new(Ipv4Addr::new(10, 0, 0, 1), 24), Err(IpNetworkError::HostBitsSet));
    let n = Ipv4Network::new(Ipv4Addr::new(10, 0, 0, 0), 24).unwrap();
    assert_eq!(n.network_address(), Ipv4Addr::new(10, 0, 0, 0));
    assert_eq!(n.netmask(), 24);
    assert!(Ipv4Network::new(Ipv4Addr::new(0, 0, 0, 0), 0).is_ok());
}

fn net4(a: u8, b: u8, c: u8, d: u8, mask: u8) -> IpNetwork {
    IpNetwork::V4(Ipv4Network::new(Ipv4Addr::new(a, b, c, d), mask).unwrap())
}

#[test]
fn peer_by_ip_takes_longest_prefix() {
    let mut peers = PeersByIp::new();
    assert_eq!(peers.insert(net4(10, 0, 0, 0, 8), 1), None);
    assert_eq!(peers.insert(net4(10, 1, 0, 0, 16), 2), None);
    assert_eq!(peer_by_ip(&peers, IpAddr::V4(Ipv4Addr::new(10, 1, 2, 3))), Some(2));
    assert_eq!(peer_by_ip(&peers, IpAddr::V4(Ipv4Addr::new(10, 2, 2, 3))), Some(1));
    assert_eq!(peer_by_ip(&peers, IpAddr::V4(Ipv4Addr::new(11, 0, 0, 1))), None);
    assert_eq!(peer_by_ip(&peers, IpAddr::V6(Ipv6Addr::from_bits(0x0a01_0203))), None);
}

#[test]
fn peer_insert_replaces_route() {
    let mut peers = PeersByIp::new();
    assert_eq!(peers.insert(net4(10, 0, 0, 0, 8), 1), None);
    assert_eq!(peers.insert(net4(10, 0, 0, 0, 8), 7), Some(1));
    assert_eq!(peer_by_ip(&peers, IpAddr::V4(Ipv4Addr::new(10, 9, 9, 9))), Some(7));
}

#[test]
fn peer_by_ip_v6() {
    let mut peers = PeersByIp::new();
    let net = IpNetwork::V6(Ipv6Network::new(Ipv6Addr::from_bits(0xfd00 << 112), 16).unwrap());
    peers.insert(net, 42);
    assert_eq!(peer_by_ip(&peers, IpAddr::V6(Ipv6Addr::from_bits((0xfd00 << 112) | 5))), Some(42));
    assert_eq!(peer_by_ip(&peers, IpAddr::V6(Ipv6Addr::from_bits(0xfe00 << 112))), None);
}

#[test]
fn tun_name_is_firezone() {
    assert_eq!(tun_name(), "Firezone");
}

#[test]
fn packet_fits_buffer() {
    let mut buf = [9u8; 6];
    assert_eq!(copy_packet_into(&mut buf, &[1, 2, 3]), 3);
    assert_eq!(buf, [1, 2, 3, 9, 9, 9]);
}

#[test]
fn packet_too_long_is_dropped() {
    let mut buf = [9u8; 2];
    assert_eq!(copy_packet_into(&mut buf, &[1, 2, 3]), 0);
    assert_eq!(buf, [9, 9]);
}

#[test]
fn routes_split_by_family() {
    let v6net = Ipv6Network::new(Ipv6Addr::from_bits(0xfd00 << 112), 16).unwrap();
    let routes = vec![net4(10, 0, 0, 0, 8), IpNetwork::V6(v6net), net4(192, 168, 0, 0, 16)];
    let (v4, v6) = routes_by_family(&routes);
    assert_eq!(
        v4,
        vec![
            Ipv4Network::new(Ipv4Addr::new(10, 0, 0, 0), 8).unwrap(),
            Ipv4Network::new(Ipv4Addr::new(192, 168, 0, 0), 16).unwrap()
        ]
    );
    assert_eq!(v6, vec![v6net]);
}
