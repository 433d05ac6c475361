use vstd::prelude::*;
use ringbuf::traits::{Consumer, Producer};
use ringbuf::HeapRb;

verus! {

/// A heap-backed ring buffer of 32-bit items from the `ringbuf` crate.
/// Verus does not accept a declaration of `ringbuf::SharedRb` (its storage
/// bound names a trait of that crate), so the buffer is held here, out of
/// Verus's sight, and known only through `ring_contents` and
/// `ring_capacity`.
#[verifier::external_body]
pub struct HeapRing {
    rb: HeapRb<u32>,
}

/// The items held by a heap-backed ring buffer of 32-bit items, oldest first.
pub uninterp spec fn ring_contents(rb: HeapRing) -> Seq<u32>;

/// The number of items a heap-backed ring buffer of 32-bit items was made to hold.
pub uninterp spec fn ring_capacity(rb: HeapRing) -> nat;

/// Calls `HeapRb::<u32>::new`: an empty ring buffer holding exactly
/// `capacity` items (its storage is a slice of that length). A zero
/// capacity panics, so it is excluded. Allocation failure is not covered.
#[verifier::external_body]
fn ring_new(capacity: usize) -> (rb: HeapRing)
    requires
        capacity > 0,
    ensures
        ring_contents(rb) == Seq::<u32>::empty(),
        ring_capacity(rb) == capacity,
{
    HeapRing { rb: HeapRb::<u32>::new(capacity) }
}

/// Calls `Producer::try_push` on the ring buffer: when it is not full the
/// item is appended at the back and `Ok` returned; when it is full nothing
/// changes and the item comes back in `Err`. The capacity never changes.
#[verifier::external_body]
fn ring_try_push(rb: &mut HeapRing, item: u32) -> (r: Result<(), u32>)
    ensures
        ring_capacity(*final(rb)) == ring_capacity(*old(rb)),
        ring_contents(*old(rb)).len() < ring_capacity(*old(rb)) ==> {
            &&& r == Ok::<(), u32>(())
            &&& ring_contents(*final(rb)) == ring_contents(*old(rb)).push(item)
        },
        ring_contents(*old(rb)).len() >= ring_capacity(*old(rb)) ==> {
            &&& r == Err::<(), u32>(item)
            &&& ring_contents(*final(rb)) == ring_contents(*old(rb))
        },
{
    rb.rb.try_push(item)
}

/// Calls `Consumer::try_pop` on the ring buffer: when it holds items the
/// oldest is removed and returned; when it is empty nothing changes and
/// `None` is returned. The capacity never changes.
#[verifier::external_body]
fn ring_try_pop(rb: &mut HeapRing) -> (r: Option<u32>)
    ensures
        ring_capacity(*final(rb)) == ring_capacity(*old(rb)),
        ring_contents(*old(rb)).len() == 0 ==> {
            &&& r == None::<u32>
            &&& ring_contents(*final(rb)) == ring_contents(*old(rb))
        },
        ring_contents(*old(rb)).len() > 0 ==> {
            &&& r == Some(ring_contents(*old(rb))[0])
            &&& ring_contents(*final(rb)) == ring_contents(*old(rb)).drop_first()
        },
{
    rb.rb.try_pop()
}

/// Room, in samples, of the queue between a capture stream and a playback
/// stream: two seconds of interleaved audio.
pub open spec fn stream_ring_capacity(sample_rate: u32, channels: u16) -> nat {
    (sample_rate * channels * 2) as nat
}

/// The samples of `incoming` that fit in a queue holding `held` with room
/// for `capacity`: the first ones, up to the free room.
pub open spec fn admitted(held: Seq<u32>, incoming: Seq<u32>, capacity: nat) -> Seq<u32> {
    let room = capacity - held.len();
    if incoming.len() <= room {
        incoming
    } else {
        incoming.take(room)
    }
}

/// A bounded first-in first-out queue of audio samples between a capture
/// stream and a playback stream. Each sample is carried as the 32-bit
/// pattern of its value. Samples that arrive while the queue is full are
/// discarded; a playback request that finds the queue empty gets silence.
pub struct SampleRing {
    rb: HeapRing,
}

impl SampleRing {
    /// The queued samples, oldest first.
    pub closed spec fn contents(&self) -> Seq<u32> {
        ring_contents(self.rb)
    }

    /// The most samples the queue holds.
    pub closed spec fn capacity(&self) -> nat {
        ring_capacity(self.rb)
    }

    /// The queue has room for at least one sample and holds no more than its room.
    pub open spec fn wf(&self) -> bool {
        &&& self.capacity() > 0
        &&& self.contents().len() <= self.capacity()
    }

    /// An empty queue with room for `capacity` samples.
    pub fn new(capacity: usize) -> (ring: Self)
        requires
            capacity > 0,
        ensures
            ring.wf(),
            ring.contents() == Seq::<u32>::empty(),
            ring.capacity() == capacity,
    {
        SampleRing { rb: ring_new(capacity) }
    }

    /// An empty queue sized for two seconds of a stream with the given
    /// sample rate and channel count.
    pub fn for_stream(sample_rate: u32, channels: u16) -> (ring: Self)
        requires
            sample_rate > 0,
            channels > 0,
            sample_rate * channels <= u32::MAX,
            sample_rate * channels * 2 <= usize::MAX,
        ensures
            ring.wf(),
            ring.contents() == Seq::<u32>::empty(),
            ring.capacity() == stream_ring_capacity(sample_rate, channels),
            ring.capacity() == sample_rate * channels * 2,
    {
        proof {
            assert(sample_rate * channels > 0) by (nonlinear_arith)
                requires sample_rate > 0, channels > 0;
        }
        let per_second = sample_rate * (channels as u32);
        let capacity = (per_second as usize) * 2;
        Self::new(capacity)
    }

    /// Appends captured samples in order until the queue is full; the rest
    /// are discarded. Returns how many were queued.
    pub fn push_samples(&mut self, samples: &[u32]) -> (queued: usize)
        requires
            old(self).wf(),
        ensures
            final(self).wf(),
            final(self).capacity() == old(self).capacity(),
            final(self).contents() == old(self).contents() + admitted(old(self).contents(), samples@, old(self).capacity()),
            queued == admitted(old(self).contents(), samples@, old(self).capacity()).len(),
            queued <= samples@.len(),
            old(self).contents().len() + queued <= old(self).capacity(),
            queued == samples@.len() || old(self).contents().len() + queued == old(self).capacity(),
            final(self).contents() == old(self).contents() + samples@.take(queued as int),
    {
        proof {
            admission_takes_what_fits(self.contents(), samples@, self.capacity());
        }
        let ghost start = self.contents();
        let ghost cap = self.capacity();
        let mut queued: usize = 0;
        let mut j: usize = 0;
        while j < samples.len()
            invariant
                j <= samples@.len(),
                queued <= j,
                cap == self.capacity(),
                cap > 0,
                start.len() <= cap,
                self.contents().len() <= cap,
                self.contents() == start + admitted(start, samples@.take(j as int), cap),
                queued == admitted(start, samples@.take(j as int), cap).len(),
            decreases samples@.len() - j,
        {
            let ghost before = self.contents();
            let r = ring_try_push(&mut self.rb, samples[j]);
            proof {
                let prev = samples@.take(j as int);
                let next = samples@.take(j + 1);
                assert(next == prev.push(samples@[j as int]));
                if prev.len() <= cap - start.len() {
                    if next.len() <= cap - start.len() {
                        assert(admitted(start, next, cap) == admitted(start, prev, cap).push(samples@[j as int]));
                    } else {
                        assert(admitted(start, next, cap) =~= prev);
                    }
                } else {
                    assert(admitted(start, next, cap) =~= admitted(start, prev, cap));
                }
            }
            if r.is_ok() {
                queued = queued + 1;
            }
            j = j + 1;
        }
        assert(samples@.take(samples@.len() as int) == samples@);
        queued
    }

    /// Fills a playback request: each position, in order, takes the next
    /// queued sample, or `silence` once the queue is empty.
    pub fn pop_into(&mut self, out: &mut [u32], silence: u32)
        requires
            old(self).wf(),
        ensures
            final(self).wf(),
            final(self).capacity() == old(self).capacity(),
            final(out)@.len() == old(out)@.len(),
            forall|k: int| 0 <= k < old(out)@.len() ==> #[trigger] final(out)@[k] == (
                if k < old(self).contents().len() { old(self).contents()[k] } else { silence }),
            old(out)@.len() <= old(self).contents().len() ==> final(self).contents() == old(self).contents().skip(old(out)@.len() as int),
            old(out)@.len() > old(self).contents().len() ==> final(self).contents() == Seq::<u32>::empty(),
    {
        let ghost start = self.contents();
        let ghost cap = self.capacity();
        let mut k: usize = 0;
        while k < out.len()
            invariant
                k <= out@.len(),
                out@.len() == old(out)@.len(),
                start == old(self).contents(),
                cap == self.capacity(),
                cap > 0,
                start.len() <= cap,
                k <= start.len() ==> self.contents() == start.skip(k as int),
                k > start.len() ==> self.contents() == Seq::<u32>::empty(),
                forall|m: int| 0 <= m < k ==> #[trigger] out@[m] == (if m < start.len() { start[m] } else { silence }),
            decreases out@.len() - k,
        {
            let ghost before = self.contents();
            let popped = ring_try_pop(&mut self.rb);
            let sample = match popped {
                Some(s) => s,
                None => silence,
            };
            proof {
                if k < start.len() {
                    assert(before == start.skip(k as int));
                    assert(start.skip(k as int).drop_first() =~= start.skip(k + 1));
                } else if k == start.len() {
                    assert(before =~= Seq::<u32>::empty());
                }
            }
            out[k] = sample;
            k = k + 1;
        }
    }
}

} // verus!

verus! {

/// Samples queued into an empty queue with room for all of them are all
/// kept, in order; overflow only ever discards the newest arrivals.
pub proof fn queue_keeps_what_fits(held: Seq<u32>, incoming: Seq<u32>, capacity: nat)
    requires
        held.len() <= capacity,
    ensures
        held.len() + incoming.len() <= capacity ==> admitted(held, incoming, capacity) == incoming,
        admitted(held, incoming, capacity) == incoming.take(admitted(held, incoming, capacity).len() as int),
        held.len() + admitted(held, incoming, capacity).len() <= capacity,
{
    if incoming.len() <= capacity - held.len() {
        assert(incoming.take(incoming.len() as int) == incoming);
    }
}

} // verus!

verus! {

/// The queue between the streams holds exactly two seconds of interleaved
/// audio: sample rate times channels times two.
pub proof fn stream_ring_holds_two_seconds(sample_rate: u32, channels: u16)
    ensures
        stream_ring_capacity(sample_rate, channels) == sample_rate * channels * 2,
{
    assert(sample_rate * channels * 2 >= 0) by (nonlinear_arith);
}

/// What a queue admits is the longest prefix of the arrivals that fits in
/// its free room: all of them when they fit, otherwise exactly as many as
/// fill the queue.
pub proof fn admission_takes_what_fits(held: Seq<u32>, incoming: Seq<u32>, capacity: nat)
    requires
        held.len() <= capacity,
    ensures
        admitted(held, incoming, capacity) == incoming.take(admitted(held, incoming, capacity).len() as int),
        admitted(held, incoming, capacity).len() <= incoming.len(),
        held.len() + incoming.len() <= capacity ==> admitted(held, incoming, capacity).len() == incoming.len(),
        held.len() + incoming.len() > capacity ==> held.len() + admitted(held, incoming, capacity).len() == capacity,
{
    if incoming.len() <= capacity - held.len() {
        assert(incoming.take(incoming.len() as int) == incoming);
    }
}

} // verus!
