use std::cell::Cell;

use connlib::datagram::DatagramOut;
use connlib::net::{IpAddr, Ipv4Addr, Ipv6Addr, SocketAddr};
use connlib::transmit::{
    gso_batches, handshake_reply, handshake_request, plan_send, HandshakeError, SendPlanError,
    SourceIpCache, Transmit,
};

fn v4(a: u8, b: u8, c: u8, d: u8) -> IpAddr {
    IpAddr::V4(Ipv4Addr::new(a, b, c, d))
}

#[test]
fn resolved_source_is_cached() {
    let calls = Cell::new(0);
    let resolver = |_dst: IpAddr| -> Result<Option<IpAddr>, String> {
        calls.set(calls.get() + 1);
        Ok(Some(v4(192, 168, 1, 2)))
    };
    let mut cache = SourceIpCache::new();
    let dst = v4(1, 1, 1, 1);
    assert_eq!(cache.resolve_source_for(dst, &resolver), Ok(Some(v4(192, 168, 1, 2))));
    assert_eq!(cache.resolve_source_for(dst, &resolver), Ok(Some(v4(192, 168, 1, 2))));
    assert_eq!(calls.get(), 1);
    assert_eq!(cache.get(dst), Some(v4(192, 168, 1, 2)));
}

#[test]
fn missing_source_is_not_cached() {
    let calls = Cell::new(0);
    let resolver = |_dst: IpAddr| -> Result<Option<IpAddr>, String> {
        calls.set(calls.get() + 1);
        Ok(None)
    };
    let mut cache = SourceIpCache::new();
    let dst = IpAddr::V6(Ipv6Addr::from_bits(0x2001_0db8 << 96));
    assert_eq!(cache.resolve_source_for(dst, &resolver), Ok(None));
    assert_eq!(cache.resolve_source_for(dst, &resolver), Ok(None));
    assert_eq!(calls.get(), 2);
    assert_eq!(cache.get(dst), None);
}

#[test]
fn resolver_error_is_returned_and_not_cached() {
    let resolver = |_dst: IpAddr| -> Result<Option<IpAddr>, String> { Err("no route".to_string()) };
    let mut cache = SourceIpCache::new();
    assert_eq!(cache.resolve_source_for(v4(8, 8, 8, 8), &resolver), Err("no route".to_string()));
    assert_eq!(cache.get(v4(8, 8, 8, 8)), None);
}

#[test]
fn cache_keeps_families_apart() {
    let resolver = |dst: IpAddr| -> Result<Option<IpAddr>, String> {
        Ok(Some(match dst {
            IpAddr::V4(_) => v4(10, 0, 0, 1),
            IpAddr::V6(_) => IpAddr::V6(Ipv6Addr::localhost()),
        }))
    };
    let mut cache = SourceIpCache::new();
    // Same low bits, different families.
    let d4 = IpAddr::V4(Ipv4Addr::from_bits(5));
    let d6 = IpAddr::V6(Ipv6Addr::from_bits(5));
    assert_eq!(cache.resolve_source_for(d4, &resolver), Ok(Some(v4(10, 0, 0, 1))));
    assert_eq!(cache.resolve_source_for(d6, &resolver), Ok(Some(IpAddr::V6(Ipv6Addr::localhost()))));
    assert_eq!(cache.get(d4), Some(v4(10, 0, 0, 1)));
}

#[test]
fn explicit_source_wins_over_resolver() {
    let resolver = |_dst: IpAddr| -> Result<Option<IpAddr>, String> { panic!("must not be asked") };
    let mut cache = SourceIpCache::new();
    let dst = SocketAddr::new(v4(1, 2, 3, 4), 53);
    let payload = [1u8, 2, 3];
    let t = cache
        .prepare_transmit(dst, Some(v4(9, 9, 9, 9)), &payload, None, &resolver)
        .unwrap();
    assert_eq!(t.src_ip, Some(v4(9, 9, 9, 9)));
    assert_eq!(t.destination, dst);
    assert_eq!(t.contents, &payload);
    assert_eq!(cache.get(v4(1, 2, 3, 4)), None);
}

#[test]
fn unresolvable_source_drops_packet() {
    let resolver = |_dst: IpAddr| -> Result<Option<IpAddr>, String> { Err("down".to_string()) };
    let mut cache = SourceIpCache::new();
    let dst = SocketAddr::new(v4(1, 2, 3, 4), 53);
    assert!(cache.prepare_transmit(dst, None, &[1, 2], None, &resolver).is_none());
}

fn transmit(contents: &[u8], segment_size: Option<usize>) -> Transmit<'_> {
    Transmit {
        destination: SocketAddr::new(v4(1, 2, 3, 4), 443),
        contents,
        segment_size,
        src_ip: Some(v4(10, 0, 0, 2)),
    }
}

#[test]
fn gso_batches_cut_by_max_segments() {
    let data: Vec<u8> = (0..10).collect();
    let batches = gso_batches(transmit(&data, Some(2)), 2);
    let contents: Vec<&[u8]> = batches.iter().map(|t| t.contents).collect();
    assert_eq!(contents, vec![&data[0..4], &data[4..8], &data[8..10]]);
    assert!(batches.iter().all(|t| t.segment_size == Some(2) && t.src_ip == Some(v4(10, 0, 0, 2))));
}

#[test]
fn gso_without_segment_size_is_one_call() {
    let data = [5u8; 3000];
    let batches = gso_batches(transmit(&data, None), 10);
    assert_eq!(batches.len(), 1);
    assert_eq!(batches[0].contents.len(), 3000);
    assert_eq!(batches[0].segment_size, None);
}

#[test]
fn gso_empty_contents_give_no_call() {
    let batches = gso_batches(transmit(&[], Some(100)), 4);
    assert!(batches.is_empty());
}

#[test]
fn plan_send_uses_datagram_source() {
    let resolver = |_dst: IpAddr| -> Result<Option<IpAddr>, String> { Ok(None) };
    let mut cache = SourceIpCache::new();
    let data = [1u8; 7];
    let datagram = DatagramOut {
        src: Some(SocketAddr::new(v4(172, 16, 0, 1), 9)),
        dst: SocketAddr::new(v4(1, 2, 3, 4), 443),
        packet: &data,
        segment_size: Some(3),
    };
    let calls = plan_send(&mut cache, &datagram, &resolver, 2).unwrap();
    assert_eq!(calls.len(), 2);
    assert_eq!(calls[0].contents.len(), 6);
    assert_eq!(calls[1].contents.len(), 1);
    assert_eq!(calls[0].src_ip, Some(v4(172, 16, 0, 1)));
}

#[test]
fn plan_send_drops_unresolvable_datagram() {
    let resolver = |_dst: IpAddr| -> Result<Option<IpAddr>, String> { Err("down".to_string()) };
    let mut cache = SourceIpCache::new();
    let datagram = DatagramOut {
        src: None,
        dst: SocketAddr::new(v4(1, 2, 3, 4), 443),
        packet: &[1, 2, 3],
        segment_size: None,
    };
    assert!(plan_send(&mut cache, &datagram, &resolver, 1).unwrap().is_empty());
}

#[test]
fn plan_send_drops_unresolvable_batch_of_any_size() {
    let resolver = |_dst: IpAddr| -> Result<Option<IpAddr>, String> { Err("down".to_string()) };
    let mut cache = SourceIpCache::new();
    let datagram = DatagramOut {
        src: None,
        dst: SocketAddr::new(v4(1, 2, 3, 4), 443),
        packet: &[1, 2, 3],
        segment_size: Some(0),
    };
    assert!(plan_send(&mut cache, &datagram, &resolver, 1).unwrap().is_empty());
    assert_eq!(cache.get(v4(1, 2, 3, 4)), None);
}

#[test]
fn plan_send_refuses_invalid_batch_size() {
    let resolver = |_dst: IpAddr| -> Result<Option<IpAddr>, String> { Ok(None) };
    let mut cache = SourceIpCache::new();
    let zero = DatagramOut {
        src: None,
        dst: SocketAddr::new(v4(1, 2, 3, 4), 443),
        packet: &[1, 2, 3],
        segment_size: Some(0),
    };
    assert_eq!(
        plan_send(&mut cache, &zero, &resolver, 4).unwrap_err(),
        SendPlanError::InvalidBatchSize { segment_size: 0, max_gso_segments: 4 }
    );
    let huge = DatagramOut { segment_size: Some(usize::MAX), ..zero };
    assert_eq!(
        plan_send(&mut cache, &huge, &resolver, 2).unwrap_err(),
        SendPlanError::InvalidBatchSize { segment_size: usize::MAX, max_gso_segments: 2 }
    );
}

#[test]
fn handshake_request_without_source_fails() {
    let resolver = |_dst: IpAddr| -> Result<Option<IpAddr>, String> { Err("down".to_string()) };
    let mut cache = SourceIpCache::new();
    let r = handshake_request(&mut cache, SocketAddr::new(v4(1, 2, 3, 4), 3478), &[1], &resolver);
    assert_eq!(r.unwrap_err(), HandshakeError::NoTransmit);
}

#[test]
fn handshake_request_is_single_datagram() {
    let resolver = |_dst: IpAddr| -> Result<Option<IpAddr>, String> { Ok(Some(v4(10, 0, 0, 3))) };
    let mut cache = SourceIpCache::new();
    let dst = SocketAddr::new(v4(1, 2, 3, 4), 3478);
    let t = handshake_request(&mut cache, dst, &[1, 2], &resolver).unwrap();
    assert_eq!(t.segment_size, None);
    assert_eq!(t.src_ip, Some(v4(10, 0, 0, 3)));
    assert_eq!(t.contents, &[1, 2]);
}

#[test]
fn handshake_reply_is_truncated() {
    let dst = SocketAddr::new(v4(1, 2, 3, 4), 3478);
    let reply = handshake_reply(dst, dst, vec![1, 2, 3, 0, 0, 0], 3).unwrap();
    assert_eq!(reply, vec![1, 2, 3]);
}

#[test]
fn handshake_reply_from_elsewhere_is_refused() {
    let dst = SocketAddr::new(v4(1, 2, 3, 4), 3478);
    let other = SocketAddr::new(v4(1, 2, 3, 4), 3479);
    assert_eq!(
        handshake_reply(dst, other, vec![1, 2, 3], 3),
        Err(HandshakeError::UnexpectedReplySource { sender: other, expected: dst })
    );
}
