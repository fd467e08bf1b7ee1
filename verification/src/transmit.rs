use vstd::prelude::*;

use crate::datagram::{lemma_segments_partition, segment_count, segments, DatagramOut};
use crate::net::{IpAddr, SocketAddr};
use std::collections::HashMap;

verus! {

broadcast use vstd::std_specs::hash::group_hash_axioms;

/// One call to the operating system's send: `contents` goes to
/// `destination` from `src_ip` (the system picks where it is `None`); where
/// `segment_size` is given, `contents` is a batch of datagrams of that size.
#[derive(Clone, Copy, Debug)]
pub struct Transmit<'a> {
    pub destination: SocketAddr,
    pub contents: &'a [u8],
    pub segment_size: Option<usize>,
    pub src_ip: Option<IpAddr>,
}

/// A cache of source IPs by their destination IPs.
///
/// Once a source is known for a destination it stays: nothing is evicted.
pub struct SourceIpCache {
    v4: HashMap<u32, IpAddr>,
    v6: HashMap<u128, IpAddr>,
}

/// The cache as a map from destination to source, after the cache `cache`
/// took the answer `answer` of the resolver for `dst`: a source that the
/// resolver found is remembered; no source or a failure is not.
pub open spec fn cache_after<E>(
    cache: Map<IpAddr, IpAddr>,
    dst: IpAddr,
    answer: Result<Option<IpAddr>, E>,
) -> Map<IpAddr, IpAddr> {
    match answer {
        Ok(Some(src)) => cache.insert(dst, src),
        _ => cache,
    }
}

impl SourceIpCache {
    /// Destination to source.
    pub closed spec fn view(&self) -> Map<IpAddr, IpAddr> {
        Map::new(
            |dst: IpAddr|
                match dst {
                    IpAddr::V4(a) => self.v4@.contains_key(a.bits),
                    IpAddr::V6(a) => self.v6@.contains_key(a.bits),
                },
            |dst: IpAddr|
                match dst {
                    IpAddr::V4(a) => self.v4@[a.bits],
                    IpAddr::V6(a) => self.v6@[a.bits],
                },
        )
    }

    /// An empty cache.
    pub fn new() -> (r: Self)
        ensures
            r.view() == Map::<IpAddr, IpAddr>::empty(),
    {
        let r = SourceIpCache { v4: HashMap::new(), v6: HashMap::new() };
        assert(r.view() =~= Map::<IpAddr, IpAddr>::empty());
        r
    }

    /// The cached source for `dst`, if there is one.
    pub fn get(&self, dst: IpAddr) -> (r: Option<IpAddr>)
        ensures
            r == (if self.view().contains_key(dst) {
                Some(self.view()[dst])
            } else {
                None
            }),
    {
        match dst {
            IpAddr::V4(a) => match self.v4.get(&a.bits) {
                Some(src) => Some(*src),
                None => None,
            },
            IpAddr::V6(a) => match self.v6.get(&a.bits) {
                Some(src) => Some(*src),
                None => None,
            },
        }
    }

    /// Remembers `src` as the source for `dst`.
    pub fn insert(&mut self, dst: IpAddr, src: IpAddr)
        ensures
            final(self).view() == old(self).view().insert(dst, src),
    {
        match dst {
            IpAddr::V4(a) => {
                self.v4.insert(a.bits, src);
            },
            IpAddr::V6(a) => {
                self.v6.insert(a.bits, src);
            },
        }
        assert(self.view() =~= old(self).view().insert(dst, src));
    }

    /// Attempts to resolve the source IP to use for sending to `dst`.
    ///
    /// A cached source is returned without asking `resolver`. Otherwise
    /// `resolver` is asked once, with `dst`, and its answer returned; a source
    /// that it finds is cached, while "no source" and failures are not (so a
    /// temporarily missing interface is asked for again next time).
    pub fn resolve_source_for<E, F: Fn(IpAddr) -> Result<Option<IpAddr>, E>>(
        &mut self,
        dst: IpAddr,
        resolver: &F,
    ) -> (r: Result<Option<IpAddr>, E>)
        requires
            !old(self).view().contains_key(dst) ==> resolver.requires((dst,)),
        ensures
            old(self).view().contains_key(dst) ==> {
                &&& r == Ok::<Option<IpAddr>, E>(Some(old(self).view()[dst]))
                &&& final(self).view() == old(self).view()
            },
            !old(self).view().contains_key(dst) ==> {
                &&& resolver.ensures((dst,), r)
                &&& final(self).view() == cache_after(old(self).view(), dst, r)
            },
    {
        match self.get(dst) {
            Some(src) => Ok(Some(src)),
            None => {
                let answer = resolver(dst);
                match answer {
                    Ok(Some(src)) => {
                        self.insert(dst, src);
                        Ok(Some(src))
                    },
                    Ok(None) => Ok(None),
                    Err(e) => Err(e),
                }
            },
        }
    }

    /// The send call for `packet` to `dst`, from `src_ip` if given.
    ///
    /// Without a given source, the source is resolved for `dst`'s IP (see
    /// `resolve_source_for`); a failure to resolve drops the packet, which
    /// is no error: the result is then `None`. A resolver that finds no
    /// source leaves the choice to the system.
    pub fn prepare_transmit<'a, E, F: Fn(IpAddr) -> Result<Option<IpAddr>, E>>(
        &mut self,
        dst: SocketAddr,
        src_ip: Option<IpAddr>,
        packet: &'a [u8],
        segment_size: Option<usize>,
        resolver: &F,
    ) -> (r: Option<Transmit<'a>>)
        requires
            src_ip is None && !old(self).view().contains_key(dst.ip) ==> resolver.requires((dst.ip,)),
        ensures
            src_ip is Some ==> {
                &&& r == Some(Transmit { destination: dst, contents: packet, segment_size, src_ip })
                &&& final(self).view() == old(self).view()
            },
            src_ip is None && old(self).view().contains_key(dst.ip) ==> {
                &&& r == Some(
                    Transmit {
                        destination: dst,
                        contents: packet,
                        segment_size,
                        src_ip: Some(old(self).view()[dst.ip]),
                    },
                )
                &&& final(self).view() == old(self).view()
            },
            src_ip is None && !old(self).view().contains_key(dst.ip) ==> exists|
                answer: Result<Option<IpAddr>, E>,
            |
                {
                    &&& resolver.ensures((dst.ip,), answer)
                    &&& final(self).view() == cache_after(old(self).view(), dst.ip, answer)
                    &&& r == match answer {
                        Ok(found) => Some(
                            Transmit { destination: dst, contents: packet, segment_size, src_ip: found },
                        ),
                        Err(_) => None,
                    }
                },
    {
        let src_ip = match src_ip {
            Some(src_ip) => Some(src_ip),
            None => match self.resolve_source_for(dst.ip, resolver) {
                Ok(src_ip) => src_ip,
                Err(_) => {
                    return None;
                },
            },
        };
        Some(Transmit { destination: dst, contents: packet, segment_size, src_ip })
    }
}

/// Cutting at `start` and then in pieces of `size` from there is one piece
/// from `start` to `end`, then the pieces from `end`.
proof fn lemma_segments_from(data: Seq<u8>, start: int, end: int, size: nat)
    requires
        0 <= start < end <= data.len(),
        size > 0,
        end == (if start + size < data.len() {
            start + size
        } else {
            data.len() as int
        }),
    ensures
        segments(data.skip(start), size) == seq![data.subrange(start, end)] + segments(
            data.skip(end),
            size,
        ),
{
    let tail = data.skip(start);
    if tail.len() <= size {
        assert(tail =~= data.subrange(start, end));
        assert(data.skip(end) =~= Seq::<u8>::empty());
        assert(segments(data.skip(end), size) =~= Seq::<Seq<u8>>::empty());
        assert(segments(tail, size) =~= seq![data.subrange(start, end)]);
    } else {
        assert(tail.take(size as int) =~= data.subrange(start, end));
        assert(tail.skip(size as int) =~= data.skip(end));
    }
}

/// The send calls for `transmit` on a socket that takes at most
/// `max_gso_segments` datagrams per call.
///
/// Without a segment size the transmit is sent as it is. With segment size
/// `s`, its contents are cut into batches of `s * max_gso_segments` bytes
/// (the last may be shorter; empty contents give no batch), each sent with
/// the same destination, source and segment size.
pub fn gso_batches<'a>(transmit: Transmit<'a>, max_gso_segments: usize) -> (r: Vec<Transmit<'a>>)
    requires
        transmit.segment_size matches Some(s) ==> 0 < s * max_gso_segments <= usize::MAX,
    ensures
        is_gso_plan(transmit, max_gso_segments, r@),
{
    let segment_size = match transmit.segment_size {
        None => {
            let mut r = Vec::new();
            r.push(transmit);
            return r;
        },
        Some(s) => s,
    };
    let chunk = segment_size * max_gso_segments;
    let contents = transmit.contents;
    let len = contents.len();
    let ghost pieces = segments(contents@, chunk as nat);
    let mut r: Vec<Transmit<'a>> = Vec::new();
    let mut start: usize = 0;
    proof {
        assert(contents@.skip(0) =~= contents@);
    }
    while start < len
        invariant
            chunk > 0,
            len == contents@.len(),
            start <= len,
            transmit.segment_size == Some(segment_size),
            transmit.contents == contents,
            pieces == segments(contents@, chunk as nat),
            pieces == r@.map_values(|t: Transmit<'a>| t.contents@) + segments(
                contents@.skip(start as int),
                chunk as nat,
            ),
            forall|i: int|
                0 <= i < r.len() ==> {
                    &&& (#[trigger] r[i]).destination == transmit.destination
                    &&& r[i].src_ip == transmit.src_ip
                    &&& r[i].segment_size == transmit.segment_size
                },
        decreases len - start,
    {
        let rest = len - start;
        let end = if rest <= chunk {
            len
        } else {
            start + chunk
        };
        proof {
            lemma_segments_from(contents@, start as int, end as int, chunk as nat);
        }
        let piece = Transmit {
            destination: transmit.destination,
            contents: &contents[start..end],
            segment_size: transmit.segment_size,
            src_ip: transmit.src_ip,
        };
        let ghost before = r@;
        r.push(piece);
        proof {
            assert(r@.map_values(|t: Transmit<'a>| t.contents@) =~= before.map_values(
                |t: Transmit<'a>| t.contents@,
            ).push(contents@.subrange(start as int, end as int)));
        }
        start = end;
    }
    proof {
        assert(contents@.skip(len as int) =~= Seq::<u8>::empty());
        assert(segments(contents@.skip(len as int), chunk as nat) =~= Seq::<Seq<u8>>::empty());
        assert(pieces =~= r@.map_values(|t: Transmit<'a>| t.contents@));
        assert forall|i: int| 0 <= i < r.len() implies (#[trigger] r[i]).contents@ == pieces[i] by {
            assert(pieces[i] == r@.map_values(|t: Transmit<'a>| t.contents@)[i]);
        }
    }
    r
}

/// Why the send calls for a datagram cannot be made.
#[derive(Clone, Copy, Debug, PartialEq, Eq, Structural)]
pub enum SendPlanError {
    /// `segment_size * max_gso_segments`, the bytes per send call, is zero or
    /// does not fit in a `usize`.
    InvalidBatchSize { segment_size: usize, max_gso_segments: usize },
}

/// Whether a batch of datagrams of `segment_size` bytes can be cut for
/// `max_gso_segments` datagrams per send call.
pub open spec fn batch_size_fits(segment_size: Option<usize>, max_gso_segments: usize) -> bool {
    match segment_size {
        Some(s) => 0 < s * max_gso_segments <= usize::MAX,
        None => true,
    }
}

/// `r` is what `plan_send` gives for the prepared `transmit`: its send calls
/// (`is_gso_plan`), or `InvalidBatchSize` where its batch cannot be cut.
pub open spec fn is_send_plan<'a>(
    transmit: Transmit<'a>,
    max_gso_segments: usize,
    r: Result<Vec<Transmit<'a>>, SendPlanError>,
) -> bool {
    if batch_size_fits(transmit.segment_size, max_gso_segments) {
        r matches Ok(calls) && is_gso_plan(transmit, max_gso_segments, calls@)
    } else {
        r == Err::<Vec<Transmit<'a>>, SendPlanError>(
            SendPlanError::InvalidBatchSize {
                segment_size: transmit.segment_size->0,
                max_gso_segments,
            },
        )
    }
}

/// The send calls for `datagram` on a socket that takes at most
/// `max_gso_segments` datagrams per call: the transmit that
/// `prepare_transmit` makes of it (with the datagram's source IP, if any),
/// cut by `gso_batches`. Where the source cannot be resolved the datagram is
/// dropped: no call at all, whatever its size. A prepared batch whose size
/// per call is zero or overflows is refused with `InvalidBatchSize`.
pub fn plan_send<'a, E, F: Fn(IpAddr) -> Result<Option<IpAddr>, E>>(
    cache: &mut SourceIpCache,
    datagram: &DatagramOut<'a>,
    resolver: &F,
    max_gso_segments: usize,
) -> (r: Result<Vec<Transmit<'a>>, SendPlanError>)
    requires
        datagram.src is None && !old(cache).view().contains_key(datagram.dst.ip) ==> resolver.requires(
            (datagram.dst.ip,),
        ),
    ensures
        datagram.src matches Some(src) ==> final(cache).view() == old(cache).view() && is_send_plan(
            Transmit {
                destination: datagram.dst,
                contents: datagram.packet,
                segment_size: datagram.segment_size,
                src_ip: Some(src.ip),
            },
            max_gso_segments,
            r,
        ),
        datagram.src is None && old(cache).view().contains_key(datagram.dst.ip) ==> final(cache).view()
            == old(cache).view() && is_send_plan(
            Transmit {
                destination: datagram.dst,
                contents: datagram.packet,
                segment_size: datagram.segment_size,
                src_ip: Some(old(cache).view()[datagram.dst.ip]),
            },
            max_gso_segments,
            r,
        ),
        datagram.src is None && !old(cache).view().contains_key(datagram.dst.ip) ==> exists|
            answer: Result<Option<IpAddr>, E>,
        |
            {
                &&& resolver.ensures((datagram.dst.ip,), answer)
                &&& final(cache).view() == cache_after(old(cache).view(), datagram.dst.ip, answer)
                &&& match answer {
                    Ok(found) => is_send_plan(
                        Transmit {
                            destination: datagram.dst,
                            contents: datagram.packet,
                            segment_size: datagram.segment_size,
                            src_ip: found,
                        },
                        max_gso_segments,
                        r,
                    ),
                    Err(_) => r matches Ok(calls) && calls@.len() == 0,
                }
            },
{
    let src_ip = match datagram.src {
        Some(src) => Some(src.ip),
        None => None,
    };
    let transmit = match cache.prepare_transmit(
        datagram.dst,
        src_ip,
        datagram.packet,
        datagram.segment_size,
        resolver,
    ) {
        Some(transmit) => transmit,
        None => {
            return Ok(Vec::new());
        },
    };
    match transmit.segment_size {
        Some(segment_size) => match segment_size.checked_mul(max_gso_segments) {
            Some(chunk) => {
                if chunk == 0 {
                    return Err(SendPlanError::InvalidBatchSize { segment_size, max_gso_segments });
                }
            },
            None => {
                return Err(SendPlanError::InvalidBatchSize { segment_size, max_gso_segments });
            },
        },
        None => {},
    }
    Ok(gso_batches(transmit, max_gso_segments))
}

/// `calls` are the send calls for `transmit` on a socket that takes at most
/// `max_gso_segments` datagrams per call: `transmit` itself where it has no
/// segment size; otherwise its contents cut into pieces of `segment_size *
/// max_gso_segments` bytes, in order, each with the same destination, source
/// and segment size.
pub open spec fn is_gso_plan<'a>(
    transmit: Transmit<'a>,
    max_gso_segments: usize,
    calls: Seq<Transmit<'a>>,
) -> bool {
    match transmit.segment_size {
        None => calls == seq![transmit],
        Some(s) => {
            let pieces = segments(transmit.contents@, (s * max_gso_segments) as nat);
            &&& calls.len() == pieces.len()
            &&& forall|i: int|
                0 <= i < calls.len() ==> {
                    &&& (#[trigger] calls[i]).contents@ == pieces[i]
                    &&& calls[i].destination == transmit.destination
                    &&& calls[i].src_ip == transmit.src_ip
                    &&& calls[i].segment_size == transmit.segment_size
                }
        },
    }
}

/// Why a single request-response handshake failed.
#[derive(Clone, Copy, Debug, PartialEq, Eq, Structural)]
pub enum HandshakeError {
    /// No send call could be prepared for the request: its source could not
    /// be resolved.
    NoTransmit,
    /// The reply came from somewhere else than the request went to.
    UnexpectedReplySource { sender: SocketAddr, expected: SocketAddr },
}

/// The send call for a handshake request of `payload` to `dst`: a single
/// datagram from the source resolved for `dst` (see `prepare_transmit`), or
/// `NoTransmit` where none can be resolved.
pub fn handshake_request<'a, E, F: Fn(IpAddr) -> Result<Option<IpAddr>, E>>(
    cache: &mut SourceIpCache,
    dst: SocketAddr,
    payload: &'a [u8],
    resolver: &F,
) -> (r: Result<Transmit<'a>, HandshakeError>)
    requires
        !old(cache).view().contains_key(dst.ip) ==> resolver.requires((dst.ip,)),
    ensures
        old(cache).view().contains_key(dst.ip) ==> {
            &&& r == Ok::<Transmit<'a>, HandshakeError>(
                Transmit {
                    destination: dst,
                    contents: payload,
                    segment_size: None,
                    src_ip: Some(old(cache).view()[dst.ip]),
                },
            )
            &&& final(cache).view() == old(cache).view()
        },
        !old(cache).view().contains_key(dst.ip) ==> exists|answer: Result<Option<IpAddr>, E>|
            {
                &&& resolver.ensures((dst.ip,), answer)
                &&& final(cache).view() == cache_after(old(cache).view(), dst.ip, answer)
                &&& r == match answer {
                    Ok(found) => Ok(
                        Transmit { destination: dst, contents: payload, segment_size: None, src_ip: found },
                    ),
                    Err(_) => Err(HandshakeError::NoTransmit),
                }
            },
{
    match cache.prepare_transmit(dst, None, payload, None, resolver) {
        Some(transmit) => Ok(transmit),
        None => Err(HandshakeError::NoTransmit),
    }
}

/// The handshake's answer, from the reply of `num_received` bytes that
/// `sender` wrote into `buffer`: the first `num_received` bytes of the
/// buffer where `sender` is `dst`, else `UnexpectedReplySource`.
pub fn handshake_reply(
    dst: SocketAddr,
    sender: SocketAddr,
    buffer: Vec<u8>,
    num_received: usize,
) -> (r: Result<Vec<u8>, HandshakeError>)
    ensures
        sender != dst ==> r == Err::<Vec<u8>, HandshakeError>(
            HandshakeError::UnexpectedReplySource { sender, expected: dst },
        ),
        sender == dst ==> r is Ok && r->Ok_0@ == buffer@.take(
            if num_received <= buffer@.len() {
                num_received as int
            } else {
                buffer@.len() as int
            },
        ),
{
    if sender != dst {
        return Err(HandshakeError::UnexpectedReplySource { sender, expected: dst });
    }
    let mut buffer = buffer;
    buffer.truncate(num_received);
    Ok(buffer)
}

/// What the resolver finds for a destination is what is sent from, for that
/// destination, from then on: the cache only grows, no entry ever changes,
/// and a found source is remembered for its destination.
pub proof fn lemma_cache_keeps_sources<E>(
    cache: Map<IpAddr, IpAddr>,
    dst: IpAddr,
    answer: Result<Option<IpAddr>, E>,
)
    requires
        !cache.contains_key(dst),
    ensures
        forall|d: IpAddr|
            #[trigger] cache.contains_key(d) ==> cache_after(cache, dst, answer).contains_key(d)
                && cache_after(cache, dst, answer)[d] == cache[d],
        answer matches Ok(Some(src)) ==> cache_after(cache, dst, answer).contains_key(dst)
            && cache_after(cache, dst, answer)[dst] == src,
        !(answer matches Ok(Some(_))) ==> !cache_after(cache, dst, answer).contains_key(dst),
{
}

/// The send calls for a batch carry the whole batch and nothing else: their
/// contents, put back together in order, are the batch's contents; each but
/// the last carries `segment_size * max_gso_segments` bytes; and there are
/// that many bytes per call, rounded up, of calls.
pub proof fn lemma_gso_plan_covers_contents<'a>(
    transmit: Transmit<'a>,
    max_gso_segments: usize,
    calls: Seq<Transmit<'a>>,
)
    requires
        transmit.segment_size is Some,
        transmit.segment_size->0 * max_gso_segments > 0,
        is_gso_plan(transmit, max_gso_segments, calls),
    ensures
        calls.map_values(|t: Transmit<'a>| t.contents@).flatten() == transmit.contents@,
        calls.len() == segment_count(
            transmit.contents@.len(),
            (transmit.segment_size->0 * max_gso_segments) as nat,
        ),
        forall|i: int|
            0 <= i < calls.len() - 1 ==> (#[trigger] calls[i]).contents@.len() == transmit.segment_size->0
                * max_gso_segments,
{
    let size = (transmit.segment_size->0 * max_gso_segments) as nat;
    let pieces = segments(transmit.contents@, size);
    lemma_segments_partition(transmit.contents@, size);
    assert(calls.map_values(|t: Transmit<'a>| t.contents@) =~= pieces);
    assert forall|i: int| 0 <= i < calls.len() - 1 implies (#[trigger] calls[i]).contents@.len()
        == transmit.segment_size->0 * max_gso_segments by {
        assert(calls[i].contents@ == pieces[i]);
    }
}

/// Resolving a source for `dst` touches the cache at `dst` only: every
/// other destination keeps its entry, or its lack of one, and `dst` gains an
/// entry exactly where the resolver found a source, which is then its entry.
pub proof fn lemma_cache_after_touches_only_dst<E>(
    cache: Map<IpAddr, IpAddr>,
    dst: IpAddr,
    answer: Result<Option<IpAddr>, E>,
)
    ensures
        forall|d: IpAddr|
            d != dst ==> (#[trigger] cache_after(cache, dst, answer).contains_key(d)
                <==> cache.contains_key(d)),
        forall|d: IpAddr|
            d != dst && cache.contains_key(d) ==> #[trigger] cache_after(cache, dst, answer)[d]
                == cache[d],
        cache_after(cache, dst, answer).contains_key(dst) <==> (cache.contains_key(dst)
            || answer matches Ok(Some(_))),
        answer matches Ok(Some(src)) ==> cache_after(cache, dst, answer)[dst] == src,
        !(answer matches Ok(Some(_))) ==> cache_after(cache, dst, answer) == cache,
{
}

/// A transmit without a segment size is sent as it is: one send call, with
/// the transmit's destination, contents, source and (absent) segment size.
pub proof fn lemma_gso_plan_plain<'a>(
    transmit: Transmit<'a>,
    max_gso_segments: usize,
    calls: Seq<Transmit<'a>>,
)
    requires
        transmit.segment_size is None,
        is_gso_plan(transmit, max_gso_segments, calls),
    ensures
        calls.len() == 1,
        calls[0] == transmit,
        calls[0].destination == transmit.destination,
        calls[0].contents@ == transmit.contents@,
        calls[0].src_ip == transmit.src_ip,
        calls[0].segment_size is None,
{
}

/// The plan for a prepared transmit is refused exactly where its bytes per
/// send call, `segment_size * max_gso_segments`, are zero or overflow; any
/// other plan is made, and its send calls carry the whole transmit, in
/// order, each from the transmit's source to its destination with its
/// segment size; without a segment size it is the transmit itself.
pub proof fn lemma_send_plan_refuses_only_bad_sizes<'a>(
    transmit: Transmit<'a>,
    max_gso_segments: usize,
    r: Result<Vec<Transmit<'a>>, SendPlanError>,
)
    requires
        is_send_plan(transmit, max_gso_segments, r),
    ensures
        r is Err <==> (transmit.segment_size matches Some(s) && !(0 < s * max_gso_segments
            <= usize::MAX)),
        r matches Err(e) ==> e == (SendPlanError::InvalidBatchSize {
            segment_size: transmit.segment_size->0,
            max_gso_segments,
        }),
        r matches Ok(calls) ==> calls@.map_values(|c: Transmit<'a>| c.contents@).flatten()
            == transmit.contents@,
        r matches Ok(calls) ==> forall|i: int|
            0 <= i < calls.len() ==> (#[trigger] calls[i]).destination == transmit.destination
                && calls[i].src_ip == transmit.src_ip && calls[i].segment_size
                == transmit.segment_size,
        transmit.segment_size is None ==> (r matches Ok(calls) && calls@ == seq![transmit]),
{
    match r {
        Ok(calls) => {
            match transmit.segment_size {
                Some(s) => {
                    lemma_gso_plan_covers_contents(transmit, max_gso_segments, calls@);
                },
                None => {
                    let cs = calls@.map_values(|c: Transmit<'a>| c.contents@);
                    assert(cs =~= seq![transmit.contents@]);
                    cs.lemma_flatten_one_element();
                },
            }
        },
        Err(_) => {},
    }
}

} // verus!
