use connlib::datagram::DatagramSegmentIter;
use connlib::net::{IpAddr, Ipv4Addr, SocketAddr};
use connlib::recv::{datagrams_from_recv, RecvError, RecvMeta, RecvOutcome};

fn localhost(port: u16) -> SocketAddr {
    SocketAddr::new(IpAddr::V4(Ipv4Addr::localhost()), port)
}

#[test]
fn datagram_iter_segments_buffer_correctly() {
    let mut iter = DatagramSegmentIter::new(
        SocketAddr::new(IpAddr::V4(Ipv4Addr::localhost()), 0),
        SocketAddr::new(IpAddr::V4(Ipv4Addr::localhost()), 0),
        b"foobar1foobar2foobar3foobar4foobar5foo                 ".to_vec(),
        38,
        7,
    );

    assert_eq!(iter.next().unwrap().packet, b"foobar1");
    assert_eq!(iter.next().unwrap().packet, b"foobar2");
    assert_eq!(iter.next().unwrap().packet, b"foobar3");
    assert_eq!(iter.next().unwrap().packet, b"foobar4");
    assert_eq!(iter.next().unwrap().packet, b"foobar5");
    assert_eq!(iter.next().unwrap().packet, b"foo");
    assert!(iter.next().is_none());
}

#[test]
fn datagram_iter_stays_exhausted() {
    let mut iter = DatagramSegmentIter::new(localhost(1), localhost(2), vec![1, 2, 3, 4], 4, 2);
    assert_eq!(iter.next().unwrap().packet, &[1, 2]);
    assert_eq!(iter.next().unwrap().packet, &[3, 4]);
    assert!(iter.next().is_none());
    assert!(iter.next().is_none());
}

#[test]
fn datagram_iter_carries_addresses() {
    let mut iter = DatagramSegmentIter::new(localhost(10), localhost(20), vec![9; 3], 3, 5);
    let first = iter.next().unwrap();
    assert_eq!(first.local, localhost(10));
    assert_eq!(first.from, localhost(20));
    assert_eq!(first.packet, &[9, 9, 9]);
}

#[test]
fn datagram_iter_ignores_bytes_after_length() {
    let mut iter = DatagramSegmentIter::new(localhost(1), localhost(2), b"abcdefgh".to_vec(), 5, 2);
    assert_eq!(iter.next().unwrap().packet, b"ab");
    assert_eq!(iter.next().unwrap().packet, b"cd");
    assert_eq!(iter.next().unwrap().packet, b"e");
    assert!(iter.next().is_none());
}

#[test]
fn datagram_iter_with_huge_segment_size() {
    let mut iter = DatagramSegmentIter::new(localhost(1), localhost(2), vec![42], 1, usize::MAX);
    assert_eq!(iter.next().unwrap().packet, &[42]);
    assert!(iter.next().is_none());
}

#[test]
fn datagram_iter_empty_batch_yields_nothing() {
    let mut iter = DatagramSegmentIter::new(localhost(1), localhost(2), vec![0; 16], 0, 4);
    assert!(iter.next().is_none());
}

fn meta(len: usize, stride: usize, dst_ip: Option<IpAddr>) -> RecvMeta {
    RecvMeta { addr: localhost(4000), len, stride, dst_ip }
}

#[test]
fn recv_empty_batch_is_retried() {
    match datagrams_from_recv(&meta(0, 0, Some(IpAddr::V4(Ipv4Addr::new(10, 0, 0, 1)))), 5, vec![7; 8]) {
        RecvOutcome::Retry(buffer) => assert_eq!(buffer, vec![7; 8]),
        other => panic!("unexpected {other:?}"),
    }
}

#[test]
fn recv_without_local_ip_is_retried() {
    match datagrams_from_recv(&meta(4, 2, None), 5, vec![7; 8]) {
        RecvOutcome::Retry(buffer) => assert_eq!(buffer.len(), 8),
        other => panic!("unexpected {other:?}"),
    }
}

#[test]
fn recv_stride_larger_than_batch_fails() {
    match datagrams_from_recv(&meta(4, 5, Some(IpAddr::V4(Ipv4Addr::new(10, 0, 0, 1)))), 5, vec![7; 8]) {
        RecvOutcome::Failed(e) => assert_eq!(e, RecvError::StrideTooLarge { stride: 5, len: 4 }),
        other => panic!("unexpected {other:?}"),
    }
}

#[test]
fn recv_batch_is_segmented_on_local_port() {
    let local_ip = IpAddr::V4(Ipv4Addr::new(10, 0, 0, 1));
    match datagrams_from_recv(&meta(5, 2, Some(local_ip)), 5353, b"aabbcxyz".to_vec()) {
        RecvOutcome::Ready(mut iter) => {
            let first = iter.next().unwrap();
            assert_eq!(first.local, SocketAddr::new(local_ip, 5353));
            assert_eq!(first.from, localhost(4000));
            assert_eq!(first.packet, b"aa");
            assert_eq!(iter.next().unwrap().packet, b"bb");
            assert_eq!(iter.next().unwrap().packet, b"c");
            assert!(iter.next().is_none());
        }
        other => panic!("unexpected {other:?}"),
    }
}
