//! The bounded byte transport that carries serialized audio samples from the
//! decoder (producer) to the voice connection (consumer).

use std::collections::VecDeque;

use byteorder::{ByteOrder, LittleEndian};
use vstd::prelude::*;

verus! {

/// Number of bytes the transport buffers before the producer has to wait.
pub const QUEUE_CAPACITY: usize = 64;

/// The four bytes of `n`, least significant first.
pub open spec fn le_bytes(n: u32) -> Seq<u8> {
    seq![
        (n % 256) as u8,
        ((n / 256) % 256) as u8,
        ((n / 65536) % 256) as u8,
        (n / 16777216) as u8,
    ]
}

/// The serialized form of a run of samples (given by their 32-bit patterns):
/// each sample's little-endian bytes, in order.
pub open spec fn encoded(samples: Seq<u32>) -> Seq<u8>
    decreases samples.len(),
{
    if samples.len() == 0 {
        Seq::empty()
    } else {
        encoded(samples.drop_last()) + le_bytes(samples.last())
    }
}

/// Relies on byteorder's `LittleEndian::write_u32`, which stores `n` least
/// significant byte first into a four-byte buffer.
#[verifier::external_body]
fn le_u32_bytes(n: u32) -> (r: [u8; 4])
    ensures
        r@ == le_bytes(n),
{
    let mut buf = [0u8; 4];
    LittleEndian::write_u32(&mut buf, n);
    buf
}

/// Serializes samples (given by their 32-bit patterns) to little-endian bytes.
pub fn encode_samples(samples: &Vec<u32>) -> (r: Vec<u8>)
    ensures
        r@ == encoded(samples@),
{
    let mut out: Vec<u8> = Vec::new();
    let mut i: usize = 0;
    while i < samples.len()
        invariant
            i <= samples@.len(),
            out@ == encoded(samples@.take(i as int)),
        decreases samples@.len() - i,
    {
        let bytes = le_u32_bytes(samples[i]);
        out.push(bytes[0]);
        out.push(bytes[1]);
        out.push(bytes[2]);
        out.push(bytes[3]);
        proof {
            let next = samples@.take(i + 1);
            assert(next.drop_last() =~= samples@.take(i as int));
            assert(next.last() == samples@[i as int]);
        }
        i = i + 1;
    }
    assert(samples@.take(i as int) =~= samples@);
    out
}

/// Serializing two runs of samples one after the other gives the
/// serialization of the joined run: frames written in sequence produce the
/// concatenation of their bytes, with nothing interleaved or reordered.
pub proof fn lemma_encoding_concatenates(a: Seq<u32>, b: Seq<u32>)
    ensures
        encoded(a + b) == encoded(a) + encoded(b),
    decreases b.len(),
{
    if b.len() == 0 {
        assert(a + b =~= a);
        assert(encoded(b) =~= Seq::<u8>::empty());
        assert(encoded(a) + encoded(b) =~= encoded(a));
    } else {
        lemma_encoding_concatenates(a, b.drop_last());
        assert((a + b).drop_last() =~= a + b.drop_last());
        assert((a + b).last() == b.last());
        assert(encoded(a) + encoded(b) =~= encoded(a) + encoded(b.drop_last()) + le_bytes(b.last()));
    }
}

/// The bounded FIFO of serialized audio bytes between the producer and the
/// consumer. It never blocks: a producer offers bytes and learns how many were
/// taken in, a consumer takes what is there; the surrounding threads wait on
/// each other when the queue is full or empty.
pub struct EmittedSink {
    queue: VecDeque<u8>,
    capacity: usize,
    /// Every byte ever accepted, in order.
    written: Ghost<Seq<u8>>,
    /// Every byte ever handed to a consumer, in order.
    delivered: Ghost<Seq<u8>>,
}

impl EmittedSink {
    /// The bytes waiting in the queue, oldest first.
    pub closed spec fn contents(&self) -> Seq<u8> {
        self.queue@
    }

    pub closed spec fn spec_capacity(&self) -> nat {
        self.capacity as nat
    }

    /// Every byte the queue has accepted since it was created or last
    /// cleared, in order.
    pub closed spec fn written_log(&self) -> Seq<u8> {
        self.written@
    }

    /// Every byte the queue has handed out since it was created or last
    /// cleared, in order.
    pub closed spec fn delivered_log(&self) -> Seq<u8> {
        self.delivered@
    }

    pub closed spec fn wf(&self) -> bool {
        &&& self.capacity == QUEUE_CAPACITY
        &&& self.queue@.len() <= self.capacity
        &&& self.delivered@ + self.queue@ == self.written@
    }

    /// An empty queue that holds at most `QUEUE_CAPACITY` bytes.
    pub fn new() -> (r: EmittedSink)
        ensures
            r.wf(),
            r.contents() == Seq::<u8>::empty(),
            r.spec_capacity() == QUEUE_CAPACITY,
            r.written_log() == Seq::<u8>::empty(),
            r.delivered_log() == Seq::<u8>::empty(),
            r.contents().len() <= r.spec_capacity(),
    {
        let r = EmittedSink {
            queue: VecDeque::new(),
            capacity: QUEUE_CAPACITY,
            written: Ghost(Seq::empty()),
            delivered: Ghost(Seq::empty()),
        };
        assert(r.delivered@ + r.queue@ =~= r.written@);
        r
    }

    pub fn len(&self) -> (r: usize)
        requires
            self.wf(),
        ensures
            r == self.contents().len(),
    {
        self.queue.len()
    }

    pub fn capacity(&self) -> (r: usize)
        requires
            self.wf(),
        ensures
            r == self.spec_capacity(),
    {
        self.capacity
    }

    pub fn is_full(&self) -> (r: bool)
        requires
            self.wf(),
        ensures
            r == (self.contents().len() == self.spec_capacity()),
    {
        self.queue.len() == self.capacity
    }

    pub fn is_empty(&self) -> (r: bool)
        requires
            self.wf(),
        ensures
            r == (self.contents().len() == 0),
    {
        self.queue.len() == 0
    }

    /// Discards every queued byte, so that audio buffered for one connection
    /// is not played into the next; the logs start afresh.
    pub fn clear(&mut self)
        requires
            old(self).wf(),
        ensures
            final(self).wf(),
            final(self).contents() == Seq::<u8>::empty(),
            final(self).spec_capacity() == old(self).spec_capacity(),
            final(self).written_log() == Seq::<u8>::empty(),
            final(self).delivered_log() == Seq::<u8>::empty(),
    {
        self.queue.clear();
        self.written = Ghost(Seq::empty());
        self.delivered = Ghost(Seq::empty());
        assert(self.delivered@ + self.queue@ =~= self.written@);
    }

    /// Appends `bytes[from..]` to the queue as far as there is room, and
    /// returns the index of the first byte not taken in. Nothing is dropped:
    /// the bytes before that index are queued in order, the rest are left for
    /// the caller to offer again once a consumer has made room.
    pub fn offer(&mut self, bytes: &Vec<u8>, from: usize) -> (next: usize)
        requires
            old(self).wf(),
            from <= bytes@.len(),
        ensures
            final(self).wf(),
            from <= next <= bytes@.len(),
            old(self).contents().len() == old(self).spec_capacity() ==> next == from,
            next - from == if bytes@.len() - from <= old(self).spec_capacity() - old(self).contents().len() {
                bytes@.len() - from
            } else {
                old(self).spec_capacity() - old(self).contents().len()
            },
            final(self).contents() == old(self).contents() + bytes@.subrange(from as int, next as int),
            final(self).written_log() == old(self).written_log() + bytes@.subrange(from as int, next as int),
            final(self).delivered_log() == old(self).delivered_log(),
            final(self).spec_capacity() == old(self).spec_capacity(),
            final(self).contents().len() <= final(self).spec_capacity(),
    {
        let mut i: usize = from;
        while i < bytes.len() && self.queue.len() < self.capacity
            invariant
                self.wf(),
                self.capacity == old(self).capacity,
                from <= i <= bytes@.len(),
                self.queue@.len() == old(self).queue@.len() + (i - from),
                self.queue@ == old(self).queue@ + bytes@.subrange(from as int, i as int),
                self.written@ == old(self).written@ + bytes@.subrange(from as int, i as int),
                self.delivered@ == old(self).delivered@,
            decreases bytes@.len() - i,
        {
            self.queue.push_back(bytes[i]);
            self.written = Ghost(self.written@.push(bytes@[i as int]));
            assert(bytes@.subrange(from as int, i + 1) =~= bytes@.subrange(from as int, i as int).push(bytes@[i as int]));
            assert(self.delivered@ + self.queue@ =~= self.written@);
            i = i + 1;
        }
        i
    }

    /// Moves queued bytes, oldest first, into `buf[from..]` until either the
    /// buffer is full or the queue is empty, and returns the index after the
    /// last byte filled in.
    pub fn take(&mut self, buf: &mut Vec<u8>, from: usize) -> (next: usize)
        requires
            old(self).wf(),
            from <= old(buf)@.len(),
        ensures
            final(self).wf(),
            from <= next <= old(buf)@.len(),
            old(self).contents().len() == 0 ==> next == from,
            final(buf)@.len() == old(buf)@.len(),
            next - from == if old(buf)@.len() - from <= old(self).contents().len() {
                old(buf)@.len() - from
            } else {
                old(self).contents().len() as int
            },
            final(buf)@.subrange(0, from as int) == old(buf)@.subrange(0, from as int),
            final(buf)@.subrange(from as int, next as int) == old(self).contents().take(next - from),
            final(buf)@.subrange(next as int, final(buf)@.len() as int)
                == old(buf)@.subrange(next as int, old(buf)@.len() as int),
            final(self).contents() == old(self).contents().skip(next - from),
            final(self).delivered_log() == old(self).delivered_log() + old(self).contents().take(next - from),
            final(self).written_log() == old(self).written_log(),
            final(self).spec_capacity() == old(self).spec_capacity(),
            final(self).contents().len() <= final(self).spec_capacity(),
    {
        let mut i: usize = from;
        while i < buf.len() && self.queue.len() > 0
            invariant
                self.wf(),
                self.capacity == old(self).capacity,
                from <= i <= buf@.len(),
                buf@.len() == old(buf)@.len(),
                i - from <= old(self).queue@.len(),
                self.queue@ == old(self).queue@.skip(i - from),
                buf@.subrange(0, from as int) == old(buf)@.subrange(0, from as int),
                buf@.subrange(from as int, i as int) == old(self).queue@.take(i - from),
                buf@.subrange(i as int, buf@.len() as int) == old(buf)@.subrange(i as int, old(buf)@.len() as int),
                self.delivered@ == old(self).delivered@ + old(self).queue@.take(i - from),
                self.written@ == old(self).written@,
            decreases buf@.len() - i,
        {
            let ghost before = buf@;
            let b = self.queue.pop_front().unwrap();
            buf.set(i, b);
            proof {
                let k = i - from;
                assert(b == old(self).queue@[k]);
                assert(self.queue@ =~= old(self).queue@.skip(k + 1));
                assert(buf@.subrange(0, from as int) =~= before.subrange(0, from as int));
                assert(buf@.subrange(from as int, i + 1) =~= old(self).queue@.take(k + 1)) by {
                    assert(before.subrange(from as int, i as int) == old(self).queue@.take(k));
                }
                assert(buf@.subrange(i + 1, buf@.len() as int) =~= before.subrange(i + 1, before.len() as int));
                assert(before.subrange(i + 1, before.len() as int) =~= before.subrange(i as int, before.len() as int).skip(1));
                assert(old(self).queue@.take(k + 1) =~= old(self).queue@.take(k).push(b));
            }
            self.delivered = Ghost(self.delivered@.push(b));
            assert(self.delivered@ + self.queue@ =~= self.written@) by {
                assert(old(self).queue@ =~= old(self).queue@.take(i - from) + old(self).queue@.skip(i - from));
            }
            i = i + 1;
        }
        i
    }
}

/// A well-formed queue holds `QUEUE_CAPACITY` bytes at most.
pub proof fn lemma_wf_bounds(s: &EmittedSink)
    requires
        s.wf(),
    ensures
        s.spec_capacity() == QUEUE_CAPACITY,
        s.contents().len() <= s.spec_capacity(),
{
}

/// Bytes leave the transport in exactly the order they entered it: at every
/// moment what consumers have received is a prefix of what producers have
/// written, and the queue holds precisely the rest.
pub proof fn lemma_delivery_is_prefix_of_writes(s: &EmittedSink)
    requires
        s.wf(),
    ensures
        s.delivered_log().len() <= s.written_log().len(),
        s.written_log().take(s.delivered_log().len() as int) == s.delivered_log(),
        s.written_log().skip(s.delivered_log().len() as int) == s.contents(),
{
    assert(s.written_log().take(s.delivered_log().len() as int) =~= s.delivered_log());
    assert(s.written_log().skip(s.delivered_log().len() as int) =~= s.contents());
}

/// Frames pass through the transport whole and in order: when the bytes of
/// frame `a` and then of frame `b` are what was written, what consumers have
/// received is the start of the serialization of `a` followed by `b`, and
/// once the queue has drained it is all of it.
pub proof fn lemma_frames_arrive_in_order(s: &EmittedSink, a: Seq<u32>, b: Seq<u32>)
    requires
        s.wf(),
        s.written_log() == encoded(a) + encoded(b),
    ensures
        s.delivered_log() == encoded(a + b).take(s.delivered_log().len() as int),
        s.contents().len() == 0 ==> s.delivered_log() == encoded(a + b),
{
    lemma_encoding_concatenates(a, b);
    lemma_delivery_is_prefix_of_writes(s);
    if s.contents().len() == 0 {
        assert(s.delivered_log() + s.contents() =~= s.delivered_log());
    }
}

} // verus!
