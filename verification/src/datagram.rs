use vstd::prelude::*;

use crate::net::SocketAddr;

verus! {

/// `data` cut into consecutive pieces of `size` elements; the last piece
/// holds what is left and may be shorter. An empty `data` has no pieces.
pub open spec fn segments<T>(data: Seq<T>, size: nat) -> Seq<Seq<T>>
    decreases data.len(),
{
    if data.len() == 0 || size == 0 {
        seq![]
    } else if data.len() <= size {
        seq![data]
    } else {
        seq![data.take(size as int)] + segments(data.skip(size as int), size)
    }
}

/// The number of pieces of `size` elements that `len` elements make,
/// counting a shorter last piece: `len / size` rounded up.
pub open spec fn segment_count(len: nat, size: nat) -> nat
    recommends
        size > 0,
{
    if len % size == 0 {
        len / size
    } else {
        len / size + 1
    }
}

/// Cutting `data` into pieces of `size` elements loses and reorders nothing:
/// the pieces, put back together, are `data`; every piece but the last holds
/// exactly `size` elements, the last between one and `size`; and there are
/// `len / size` pieces, rounded up.
pub proof fn lemma_segments_partition<T>(data: Seq<T>, size: nat)
    requires
        size > 0,
    ensures
        segments(data, size).flatten() == data,
        segments(data, size).len() == segment_count(data.len(), size),
        forall|i: int|
            0 <= i < segments(data, size).len() - 1 ==> #[trigger] segments(data, size)[i].len()
                == size,
        segments(data, size).len() > 0 ==> 0 < segments(data, size).last().len() <= size,
        forall|i: int|
            0 <= i < segments(data, size).len() ==> 0 < #[trigger] segments(data, size)[i].len()
                <= size,
    decreases data.len(),
{
    let s = segments(data, size);
    if data.len() == 0 {
        assert(s.flatten() =~= data);
    } else if data.len() <= size {
        assert(s =~= seq![data]);
        s.lemma_flatten_one_element();
        assert(s.flatten() =~= data);
        lemma_count_small(data.len(), size);
    } else {
        let rest = data.skip(size as int);
        lemma_segments_partition(rest, size);
        let rs = segments(rest, size);
        assert(s =~= seq![data.take(size as int)] + rs);
        assert(s.drop_first() =~= rs);
        assert(s.flatten() == s.first() + rs.flatten());
        assert(data =~= data.take(size as int) + rest);
        lemma_count_step(data.len(), size);
        assert forall|i: int| 0 <= i < s.len() - 1 implies #[trigger] s[i].len() == size by {
            if i > 0 {
                assert(s[i] == rs[i - 1]);
            }
        }
        assert forall|i: int| 0 <= i < s.len() implies 0 < #[trigger] s[i].len() <= size by {
            if i > 0 {
                assert(s[i] == rs[i - 1]);
            }
        }
    }
}

/// The `k`-th piece of `data` cut into pieces of `size` elements is the
/// elements from `k * size` up to `(k + 1) * size`, or to the end of `data`
/// if that comes first.
pub proof fn lemma_segments_index<T>(data: Seq<T>, size: nat, k: int)
    requires
        size > 0,
        0 <= k < segments(data, size).len(),
    ensures
        segments(data, size)[k] == data.subrange(
            k * size,
            if (k + 1) * size < data.len() {
                (k + 1) * size
            } else {
                data.len() as int
            },
        ),
    decreases data.len(),
{
    if data.len() <= size {
        assert(segments(data, size) =~= seq![data]);
        assert(data.subrange(0, data.len() as int) =~= data);
    } else {
        let rest = data.skip(size as int);
        assert(segments(data, size) =~= seq![data.take(size as int)] + segments(rest, size));
        if k == 0 {
            assert(data.take(size as int) =~= data.subrange(0, size as int));
        } else {
            lemma_segments_index(rest, size, k - 1);
            lemma_segments_partition(rest, size);
            lemma_datagram_position(rest.len(), size, (k - 1) as nat);
            assert((k - 1) * size + size == k * size) by (nonlinear_arith);
            assert(k * size + size == (k + 1) * size) by (nonlinear_arith);
            assert(segments(data, size)[k] == segments(rest, size)[k - 1]);
            let end = if (k + 1) * size < data.len() {
                (k + 1) * size
            } else {
                data.len() as int
            };
            assert(k * size <= end) by (nonlinear_arith)
                requires
                    k > 0,
                    size > 0,
                    end == (if (k + 1) * size < data.len() {
                        (k + 1) * size
                    } else {
                        data.len() as int
                    }),
                    (k - 1) * size < rest.len(),
                    rest.len() == data.len() - size,
            {
            }
            assert(rest.subrange((k - 1) * size, end - size) =~= data.subrange(k * size, end));
        }
    }
}

/// After `k` datagrams the position is `k * size`; there is a `k`-th
/// datagram, starting there, exactly while `k` is less than the number of
/// datagrams, `length / size` rounded up.
pub proof fn lemma_datagram_position(length: nat, size: nat, k: nat)
    requires
        size > 0,
    ensures
        k * size < length <==> k < segment_count(length, size),
{
    let q = length / size;
    let r = length % size;
    vstd::arithmetic::div_mod::lemma_fundamental_div_mod(length as int, size as int);
    vstd::arithmetic::div_mod::lemma_mod_pos_bound(length as int, size as int);
    assert(k * size < length <==> k < segment_count(length, size)) by (nonlinear_arith)
        requires
            size > 0,
            length == size * q + r,
            0 <= r < size,
            segment_count(length, size) == (if r == 0 {
                q
            } else {
                q + 1
            }),
    {
    }
}

/// A fresh iterator's `k`-th datagram, which its `k`-th call of `next`
/// hands out, is the bytes from `k * segment_size` up to `(k + 1) *
/// segment_size`, or to `length` if that comes first; there are `length /
/// segment_size` of them, rounded up, after which `next` gives `None`.
pub proof fn lemma_segment_iter_kth(it: DatagramSegmentIter, k: int)
    requires
        it.wf(),
        it.index() == 0,
        it.segment_size() > 0,
        0 <= k,
    ensures
        k < it.remaining().len() <==> k < segment_count(it.length(), it.segment_size()),
        k < it.remaining().len() ==> it.remaining()[k] == it.buffer().subrange(
            k * it.segment_size(),
            if (k + 1) * it.segment_size() < it.length() {
                (k + 1) * it.segment_size()
            } else {
                it.length() as int
            },
        ),
{
    lemma_segment_iter_covers_buffer(it);
    if it.length() > 0 && k < it.remaining().len() {
        let data = it.buffer().subrange(0, it.length() as int);
        lemma_segments_index(data, it.segment_size(), k);
        let end = if (k + 1) * it.segment_size() < it.length() {
            (k + 1) * it.segment_size()
        } else {
            it.length() as int
        };
        lemma_segments_partition(data, it.segment_size());
        assert(0 <= k * it.segment_size()) by (nonlinear_arith)
            requires
                k >= 0,
                it.segment_size() > 0,
        ;
        assert(k * it.segment_size() <= end) by {
            lemma_datagram_position(it.length(), it.segment_size(), k as nat);
            assert((k + 1) * it.segment_size() == k * it.segment_size() + it.segment_size()) by (nonlinear_arith);
        }
        assert(data.subrange(k * it.segment_size(), end) =~= it.buffer().subrange(
            k * it.segment_size(),
            end,
        ));
    }
}

proof fn lemma_count_small(len: nat, size: nat)
    requires
        0 < len <= size,
    ensures
        segment_count(len, size) == 1,
{
    if len == size {
        vstd::arithmetic::div_mod::lemma_div_basics(len as int);
        vstd::arithmetic::div_mod::lemma_mod_self_0(len as int);
    } else {
        vstd::arithmetic::div_mod::lemma_small_mod(len, size);
        vstd::arithmetic::div_mod::lemma_basic_div(len as int, size as int);
    }
}

proof fn lemma_count_step(len: nat, size: nat)
    requires
        0 < size < len,
    ensures
        segment_count(len, size) == segment_count((len - size) as nat, size) + 1,
{
    vstd::arithmetic::div_mod::lemma_mod_sub_multiples_vanish(len as int, size as int);
    vstd::arithmetic::div_mod::lemma_div_minus_one(len as int, size as int);
}


/// An inbound UDP datagram.
#[derive(Debug)]
pub struct DatagramIn<'a> {
    pub local: SocketAddr,
    pub from: SocketAddr,
    pub packet: &'a [u8],
}

/// An outbound UDP datagram.
///
/// `packet` holds one datagram or, where `segment_size` is given, a batch of
/// datagrams of that size each (the last may be shorter).
pub struct DatagramOut<'a> {
    pub src: Option<SocketAddr>,
    pub dst: SocketAddr,
    pub packet: &'a [u8],
    pub segment_size: Option<usize>,
}

/// An iterator that segments a given buffer into individual datagrams.
///
/// The first `length` bytes of `buffer` hold datagrams of `segment_size`
/// bytes each, the last one possibly shorter; `next` hands them out in order.
#[derive(Debug)]
pub struct DatagramSegmentIter {
    local: SocketAddr,
    from: SocketAddr,
    buffer: Vec<u8>,
    index: usize,
    length: usize,
    segment_size: usize,
}

impl DatagramSegmentIter {
    pub closed spec fn local(&self) -> SocketAddr {
        self.local
    }

    pub closed spec fn from(&self) -> SocketAddr {
        self.from
    }

    pub closed spec fn buffer(&self) -> Seq<u8> {
        self.buffer@
    }

    /// Where the next datagram starts.
    pub closed spec fn index(&self) -> nat {
        self.index as nat
    }

    pub closed spec fn length(&self) -> nat {
        self.length as nat
    }

    pub closed spec fn segment_size(&self) -> nat {
        self.segment_size as nat
    }

    /// The iterator stays within its buffer, and covers at most `isize::MAX`
    /// bytes (as no buffer in memory holds more); the position is 0 or past
    /// the first datagram, so that moving it on stays within `usize`.
    pub closed spec fn wf(&self) -> bool {
        &&& self.length <= self.buffer@.len()
        &&& self.length <= isize::MAX
        &&& (self.index == 0 || self.segment_size <= self.index)
    }

    /// Where the datagram that starts at `index` ends: `segment_size` bytes
    /// further, or at `length` if that comes first.
    pub open spec fn next_end(&self) -> int {
        if self.index() + self.segment_size() < self.length() {
            (self.index() + self.segment_size()) as int
        } else {
            self.length() as int
        }
    }

    /// The datagrams that are still to come.
    pub open spec fn remaining(&self) -> Seq<Seq<u8>> {
        if self.index() < self.length() {
            segments(self.buffer().subrange(self.index() as int, self.length() as int), self.segment_size())
        } else {
            seq![]
        }
    }

    /// One step of `next` takes the first of the remaining datagrams.
    proof fn lemma_step(&self)
        requires
            self.wf(),
            self.segment_size > 0,
            self.index < self.length,
        ensures
            self.remaining().len() > 0,
            self.remaining()[0] == self.buffer@.subrange(self.index as int, self.next_end()),
            ({
                let after = (self.index + self.segment_size) as nat;
                let rest = if after < self.length {
                    segments(self.buffer@.subrange(after as int, self.length as int), self.segment_size as nat)
                } else {
                    seq![]
                };
                rest == self.remaining().drop_first()
            }),
    {
        let data = self.buffer@.subrange(self.index as int, self.length as int);
        let size = self.segment_size as nat;
        let segs = segments(data, size);
        if data.len() <= size {
            assert(segs =~= seq![data]);
            assert(segs.drop_first() =~= seq![]);
        } else {
            assert(segs =~= seq![data.take(size as int)] + segments(data.skip(size as int), size));
            assert(data.take(size as int) =~= self.buffer@.subrange(self.index as int, self.next_end()));
            assert(data.skip(size as int) =~= self.buffer@.subrange(
                self.index + self.segment_size,
                self.length as int,
            ));
            assert(segs.drop_first() =~= segments(data.skip(size as int), size));
        }
    }

    /// An iterator over the first `length` bytes of `buffer`, in datagrams of
    /// `segment_size` bytes, all received by `local` from `from`.
    pub fn new(
        local: SocketAddr,
        from: SocketAddr,
        buffer: Vec<u8>,
        length: usize,
        segment_size: usize,
    ) -> (r: Self)
        requires
            length <= buffer@.len(),
            length <= isize::MAX,
        ensures
            r.wf(),
            r.local() == local,
            r.from() == from,
            r.buffer() == buffer@,
            r.index() == 0,
            r.length() == length,
            r.segment_size() == segment_size,
            r.remaining() == segments(buffer@.subrange(0, length as int), segment_size as nat),
    {
        DatagramSegmentIter { local, from, buffer, index: 0, length, segment_size }
    }

    /// The next datagram: the `segment_size` bytes from the current position,
    /// or fewer where `length` comes first; `None` once `length` is reached.
    pub fn next(&mut self) -> (r: Option<DatagramIn<'_>>)
        requires
            old(self).wf(),
        ensures
            final(self).wf(),
            final(self).local() == old(self).local(),
            final(self).from() == old(self).from(),
            final(self).buffer() == old(self).buffer(),
            final(self).length() == old(self).length(),
            final(self).segment_size() == old(self).segment_size(),
            old(self).index() < old(self).length() ==> {
                &&& r is Some
                &&& r->0.local == old(self).local()
                &&& r->0.from == old(self).from()
                &&& r->0.packet@ == old(self).buffer().subrange(
                    old(self).index() as int,
                    old(self).next_end(),
                )
                &&& final(self).index() == old(self).index() + old(self).segment_size()
            },
            old(self).index() >= old(self).length() ==> r is None && final(self).index()
                == old(self).index(),
            old(self).segment_size() > 0 ==> {
                &&& (r is Some <==> old(self).remaining().len() > 0)
                &&& r is Some ==> r->0.packet@ == old(self).remaining()[0]
                &&& final(self).remaining() == if old(self).remaining().len() > 0 {
                    old(self).remaining().drop_first()
                } else {
                    old(self).remaining()
                }
            },
    {
        proof {
            if self.segment_size > 0 && self.index < self.length {
                self.lemma_step();
            }
        }
        if self.index >= self.length {
            return None;
        }
        let start = self.index;
        let end = if self.index + self.segment_size < self.length {
            self.index + self.segment_size
        } else {
            self.length
        };
        self.index = self.index + self.segment_size;
        Some(DatagramIn { local: self.local, from: self.from, packet: &self.buffer.as_slice()[start..end] })
    }
}


/// A fresh iterator hands out the first `length` bytes of its buffer and
/// nothing else: its datagrams, put back together, are those bytes; all but
/// the last are `segment_size` bytes long; and there are `length /
/// segment_size` of them, rounded up.
pub proof fn lemma_segment_iter_covers_buffer(it: DatagramSegmentIter)
    requires
        it.wf(),
        it.index() == 0,
        it.segment_size() > 0,
    ensures
        it.remaining().flatten() == it.buffer().take(it.length() as int),
        it.remaining().len() == segment_count(it.length(), it.segment_size()),
        forall|i: int|
            0 <= i < it.remaining().len() - 1 ==> #[trigger] it.remaining()[i].len()
                == it.segment_size(),
{
    let data = it.buffer().take(it.length() as int);
    if it.length() > 0 {
        assert(data =~= it.buffer().subrange(0, it.length() as int));
        lemma_segments_partition(data, it.segment_size());
    } else {
        assert(it.remaining().flatten() =~= data);
    }
}

} // verus!
