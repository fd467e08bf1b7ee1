use vstd::prelude::*;

use crate::datagram::DatagramSegmentIter;
use crate::net::{IpAddr, SocketAddr};

verus! {

/// What the operating system reports about one received batch of datagrams.
#[derive(Clone, Copy, Debug)]
pub struct RecvMeta {
    /// The sender.
    pub addr: SocketAddr,
    /// The number of bytes received.
    pub len: usize,
    /// The size of each datagram in the batch (the last may be shorter).
    pub stride: usize,
    /// The local IP address the batch was received on, where known.
    pub dst_ip: Option<IpAddr>,
}

/// Why a received batch cannot be handed out.
#[derive(Clone, Copy, Debug, PartialEq, Eq, Structural)]
pub enum RecvError {
    /// The reported datagram size is larger than the batch.
    StrideTooLarge { stride: usize, len: usize },
}

/// What to do with one received batch.
#[derive(Debug)]
pub enum RecvOutcome {
    /// The batch is empty or its local address is unknown: drop it and
    /// receive again into the same buffer, which is handed back.
    Retry(Vec<u8>),
    /// The batch is malformed.
    Failed(RecvError),
    /// The batch, ready to be cut into datagrams.
    Ready(DatagramSegmentIter),
}

/// Decides what becomes of a batch that the socket bound to `port` received
/// into `buffer`, as the receive loop does: an empty batch, or one whose
/// local address is unknown, is skipped; a datagram size larger than the
/// batch is an error; anything else is handed out as datagrams of `stride`
/// bytes from `meta.addr` to the local address on `port`.
pub fn datagrams_from_recv(meta: &RecvMeta, port: u16, buffer: Vec<u8>) -> (r: RecvOutcome)
    requires
        meta.len <= buffer@.len() <= isize::MAX,
        meta.len > 0 && meta.dst_ip is Some ==> meta.stride > 0,
    ensures
        meta.len == 0 || meta.dst_ip is None ==> r == RecvOutcome::Retry(buffer),
        meta.len > 0 && meta.dst_ip is Some && meta.stride > meta.len ==> r == RecvOutcome::Failed(
            RecvError::StrideTooLarge { stride: meta.stride, len: meta.len },
        ),
        meta.len > 0 && meta.dst_ip is Some && meta.stride <= meta.len ==> {
            &&& r is Ready
            &&& r->Ready_0.wf()
            &&& r->Ready_0.local() == SocketAddr { ip: meta.dst_ip->0, port }
            &&& r->Ready_0.from() == meta.addr
            &&& r->Ready_0.buffer() == buffer@
            &&& r->Ready_0.index() == 0
            &&& r->Ready_0.length() == meta.len
            &&& r->Ready_0.segment_size() == meta.stride
        },
{
    if meta.len == 0 {
        return RecvOutcome::Retry(buffer);
    }
    let local_ip = match meta.dst_ip {
        Some(ip) => ip,
        None => {
            return RecvOutcome::Retry(buffer);
        },
    };
    if meta.stride > meta.len {
        return RecvOutcome::Failed(RecvError::StrideTooLarge { stride: meta.stride, len: meta.len });
    }
    let local = SocketAddr::new(local_ip, port);
    RecvOutcome::Ready(DatagramSegmentIter::new(local, meta.addr, buffer, meta.len, meta.stride))
}

} // verus!
