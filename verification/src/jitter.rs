//! The jitter buffer between the network and the audio output.
//!
//! Decoded samples are queued as they arrive and played as the output
//! device asks for them. The device is never kept waiting: where fewer
//! samples wait than it asks for, the rest of its buffer repeats the last
//! sample that was played, which is quieter on the ear than a jump to
//! silence. A sample is held as the 32 bits that spell it.

use vstd::prelude::*;
use ringbuf::traits::{Consumer, Producer};
use ringbuf::HeapRb;

verus! {

/// The bits of a sample of silence.
pub const SILENCE: u32 = 0;

/// How large the buffer is made for an output device: this many samples
/// for every frame that the device plays in a second.
pub const JITTER_FACTOR: usize = 4;

/// A ring buffer of samples: a `ringbuf::HeapRb`, held whole, so that
/// nothing else can push to it or pop from it. Its inside stays hidden;
/// what it holds is known only through `ring_samples` and `ring_capacity`.
#[verifier::external_body]
pub struct SampleRing {
    ring: HeapRb<u32>,
}

/// The samples that a ring holds, oldest first.
pub uninterp spec fn ring_samples(ring: SampleRing) -> Seq<u32>;

/// The number of samples that a ring was made for.
pub uninterp spec fn ring_capacity(ring: SampleRing) -> nat;

/// The smaller of two numbers.
pub open spec fn smaller(a: int, b: int) -> int {
    if a < b {
        a
    } else {
        b
    }
}

/// Calls `HeapRb::new`, which makes an empty ring for `capacity` samples.
/// It panics on a capacity of 0 and on one whose bytes the allocator
/// cannot count, so those are left out.
#[verifier::external_body]
fn ring_new(capacity: usize) -> (ring: SampleRing)
    requires
        0 < capacity,
        capacity * 4 <= isize::MAX,
    ensures
        ring_samples(ring) == Seq::<u32>::empty(),
        ring_capacity(ring) == capacity,
{
    SampleRing { ring: HeapRb::<u32>::new(capacity) }
}

/// Calls `Producer::push_slice`, which copies samples from the front of
/// `samples` behind those that the ring holds, as many as there is room
/// for, and returns how many that were.
#[verifier::external_body]
fn ring_push(ring: &mut SampleRing, samples: &[u32]) -> (count: usize)
    ensures
        count == smaller(
            samples@.len() as int,
            ring_capacity(*old(ring)) - ring_samples(*old(ring)).len(),
        ),
        ring_samples(*final(ring)) == ring_samples(*old(ring)) + samples@.take(count as int),
        ring_capacity(*final(ring)) == ring_capacity(*old(ring)),
{
    ring.ring.push_slice(samples)
}

/// Calls `Consumer::pop_slice`, which moves the oldest samples of the
/// ring to the front of `out`, as many as the ring holds and `out` has
/// room for, and returns how many that were. The rest of `out` is not
/// written.
#[verifier::external_body]
fn ring_pop(ring: &mut SampleRing, out: &mut [u32]) -> (count: usize)
    ensures
        count == smaller(old(out)@.len() as int, ring_samples(*old(ring)).len() as int),
        final(out)@ == ring_samples(*old(ring)).take(count as int) + old(out)@.skip(count as int),
        ring_samples(*final(ring)) == ring_samples(*old(ring)).skip(count as int),
        ring_capacity(*final(ring)) == ring_capacity(*old(ring)),
{
    ring.ring.pop_slice(out)
}

/// The state of a jitter buffer.
pub struct JitterModel {
    /// The samples that wait to be played, oldest first.
    pub samples: Seq<u32>,
    /// The number of samples that the buffer can hold.
    pub capacity: nat,
    /// The sample that an underrun repeats.
    pub last: u32,
}

/// How many of `count` new samples a buffer takes: as many as there is
/// room for.
pub open spec fn accepted(buffer: JitterModel, count: int) -> int {
    smaller(count, buffer.capacity - buffer.samples.len())
}

/// The buffer after new samples arrived: those that there was room for
/// stand behind the waiting ones, the others are lost.
pub open spec fn queued(buffer: JitterModel, samples: Seq<u32>) -> JitterModel {
    JitterModel {
        samples: buffer.samples + samples.take(accepted(buffer, samples.len() as int)),
        capacity: buffer.capacity,
        last: buffer.last,
    }
}

/// How many waiting samples are played when the device asks for `wanted`.
pub open spec fn fresh_count(buffer: JitterModel, wanted: int) -> int {
    smaller(wanted, buffer.samples.len() as int)
}

/// The sample that fills what is missing when the device asks for
/// `wanted` samples: the last one played now, or the last one played
/// before where none is played now.
pub open spec fn fill_sample(buffer: JitterModel, wanted: int) -> u32 {
    if fresh_count(buffer, wanted) > 0 {
        buffer.samples[fresh_count(buffer, wanted) - 1]
    } else {
        buffer.last
    }
}

/// What the device gets when it asks for `wanted` samples: the oldest
/// waiting samples, and behind them the fill sample as often as needed.
pub open spec fn played(buffer: JitterModel, wanted: int) -> Seq<u32> {
    buffer.samples.take(fresh_count(buffer, wanted)) + Seq::new(
        (wanted - fresh_count(buffer, wanted)) as nat,
        |i: int| fill_sample(buffer, wanted),
    )
}

/// The buffer after the device took `wanted` samples.
pub open spec fn after_play(buffer: JitterModel, wanted: int) -> JitterModel {
    JitterModel {
        samples: buffer.samples.skip(fresh_count(buffer, wanted)),
        capacity: buffer.capacity,
        last: fill_sample(buffer, wanted),
    }
}

/// Samples that are queued in an empty buffer with room for them are
/// played back as they were queued, each one once.
pub proof fn lemma_plays_what_was_queued(buffer: JitterModel, samples: Seq<u32>)
    requires
        buffer.samples.len() == 0,
        samples.len() <= buffer.capacity,
    ensures
        played(queued(buffer, samples), samples.len() as int) == samples,
        after_play(queued(buffer, samples), samples.len() as int).samples == Seq::<u32>::empty(),
{
}

/// On an underrun the device still gets as many samples as it asked for,
/// and every sample behind the fresh ones is the last sample played.
pub proof fn lemma_underrun_repeats_last(buffer: JitterModel, wanted: int)
    requires
        0 <= wanted,
    ensures
        played(buffer, wanted).len() == wanted,
        forall|i: int|
            fresh_count(buffer, wanted) <= i < wanted ==> played(buffer, wanted)[i] == fill_sample(
                buffer,
                wanted,
            ),
        forall|i: int|
            0 <= i < fresh_count(buffer, wanted) ==> played(buffer, wanted)[i]
                == buffer.samples[i],
        after_play(buffer, wanted).last == fill_sample(buffer, wanted),
{
}

/// One thing that happens to a jitter buffer.
pub enum JitterEvent {
    /// These samples arrive.
    Enqueue(Seq<u32>),
    /// The device asks for this many samples.
    Play(nat),
}

/// The buffer after one event.
pub open spec fn jitter_after(buffer: JitterModel, event: JitterEvent) -> JitterModel {
    match event {
        JitterEvent::Enqueue(samples) => queued(buffer, samples),
        JitterEvent::Play(wanted) => after_play(buffer, wanted as int),
    }
}

/// The buffer after a run of events.
pub open spec fn jitter_run(buffer: JitterModel, events: Seq<JitterEvent>) -> JitterModel
    decreases events.len(),
{
    if events.len() == 0 {
        buffer
    } else {
        jitter_run(jitter_after(buffer, events[0]), events.skip(1))
    }
}

/// The samples that the buffer takes in during a run of events, in the
/// order of arrival: of every arrival as many as there was room for.
pub open spec fn let_in(buffer: JitterModel, events: Seq<JitterEvent>) -> Seq<u32>
    decreases events.len(),
{
    if events.len() == 0 {
        Seq::empty()
    } else {
        let first = match events[0] {
            JitterEvent::Enqueue(samples) => samples.take(
                accepted(buffer, samples.len() as int),
            ),
            JitterEvent::Play(_) => Seq::empty(),
        };
        first + let_in(jitter_after(buffer, events[0]), events.skip(1))
    }
}

/// The fresh samples that the device is given during a run of events, in
/// the order of playing; what is repeated on an underrun is not among
/// them.
pub open spec fn played_fresh(buffer: JitterModel, events: Seq<JitterEvent>) -> Seq<u32>
    decreases events.len(),
{
    if events.len() == 0 {
        Seq::empty()
    } else {
        let first = match events[0] {
            JitterEvent::Enqueue(_) => Seq::empty(),
            JitterEvent::Play(wanted) => buffer.samples.take(fresh_count(buffer, wanted as int)),
        };
        first + played_fresh(jitter_after(buffer, events[0]), events.skip(1))
    }
}

/// The buffer is a queue with a bound: however arrivals and requests of
/// the device take turns, the fresh samples played so far, followed by
/// those that still wait, are the samples that waited at the start
/// followed by those let in since, in the order of arrival. And never do
/// more samples wait than the buffer was made for.
pub proof fn lemma_jitter_is_a_bounded_queue(buffer: JitterModel, events: Seq<JitterEvent>)
    requires
        buffer.samples.len() <= buffer.capacity,
    ensures
        played_fresh(buffer, events) + jitter_run(buffer, events).samples == buffer.samples
            + let_in(buffer, events),
        jitter_run(buffer, events).samples.len() <= buffer.capacity,
        jitter_run(buffer, events).capacity == buffer.capacity,
    decreases events.len(),
{
    if events.len() > 0 {
        let next = jitter_after(buffer, events[0]);
        let rest = events.skip(1);
        lemma_jitter_is_a_bounded_queue(next, rest);
        if let JitterEvent::Play(wanted) = events[0] {
            let first = buffer.samples.take(fresh_count(buffer, wanted as int));
            assert(first + (next.samples + let_in(next, rest)) =~= buffer.samples + let_in(
                next,
                rest,
            ));
        }
    }
}

/// The jitter buffer.
pub struct JitterRingBuffer {
    ring: SampleRing,
    last: u32,
}

impl View for JitterRingBuffer {
    type V = JitterModel;

    closed spec fn view(&self) -> JitterModel {
        JitterModel {
            samples: ring_samples(self.ring),
            capacity: ring_capacity(self.ring),
            last: self.last,
        }
    }
}

impl JitterRingBuffer {
    /// Whether the buffer is in order: it holds no more than it was made
    /// for.
    pub open spec fn wf(&self) -> bool {
        self@.samples.len() <= self@.capacity
    }

    /// An empty buffer for `capacity` samples that has played nothing
    /// yet; none where the capacity is 0 or too large to allocate.
    pub fn new(capacity: usize) -> (buffer: Option<Self>)
        ensures
            match buffer {
                Some(b) => {
                    &&& b.wf()
                    &&& 0 < capacity
                    &&& capacity * 4 <= isize::MAX
                    &&& b@ == (JitterModel {
                        samples: Seq::empty(),
                        capacity: capacity as nat,
                        last: SILENCE,
                    })
                },
                None => capacity == 0 || capacity * 4 > isize::MAX,
            },
    {
        if capacity == 0 || capacity > (isize::MAX as usize) / 4 {
            return None;
        }
        Some(JitterRingBuffer { ring: ring_new(capacity), last: SILENCE })
    }

    /// An empty buffer for an output device that runs at `dest_rate`
    /// frames per second: it holds `JITTER_FACTOR` times that many samples.
    /// None where that is 0 or too large to allocate.
    pub fn for_rate(dest_rate: usize) -> (buffer: Option<Self>)
        ensures
            match buffer {
                Some(b) => {
                    &&& b.wf()
                    &&& 0 < dest_rate
                    &&& dest_rate * JITTER_FACTOR * 4 <= isize::MAX
                    &&& b@ == (JitterModel {
                        samples: Seq::empty(),
                        capacity: (dest_rate * JITTER_FACTOR) as nat,
                        last: SILENCE,
                    })
                },
                None => dest_rate == 0 || dest_rate * JITTER_FACTOR * 4 > isize::MAX,
            },
    {
        match dest_rate.checked_mul(JITTER_FACTOR) {
            Some(capacity) => Self::new(capacity),
            None => None,
        }
    }

    /// The sample that an underrun repeats: the last one played, or
    /// silence before any was.
    pub fn last_played(&self) -> (last: u32)
        ensures
            last == self@.last,
    {
        self.last
    }

    /// Queues decoded samples and returns how many were taken; those that
    /// found no room are lost.
    pub fn enqueue(&mut self, samples: &[u32]) -> (count: usize)
        requires
            old(self).wf(),
        ensures
            final(self).wf(),
            count == accepted(old(self)@, samples@.len() as int),
            final(self)@ == queued(old(self)@, samples@),
    {
        ring_push(&mut self.ring, samples)
    }
}

/// Fills the device's buffer `data` while the jitter buffer is out of
/// reach: with `last`, the last sample played, as often as the device
/// asks. It is what an underrun without any fresh sample gives, so the
/// device need not wait for the buffer.
pub fn write_held(last: u32, data: &mut [u32])
    ensures
        final(data)@ == played(
            JitterModel { samples: Seq::empty(), capacity: 0, last },
            old(data)@.len() as int,
        ),
        final(data)@.len() == old(data)@.len(),
        forall|i: int| 0 <= i < old(data)@.len() ==> final(data)@[i] == last,
{
    let len = data.len();
    let mut i: usize = 0;
    while i < len
        invariant
            i <= len,
            len == data@.len(),
            forall|k: int| 0 <= k < i ==> data@[k] == last,
        decreases len - i,
    {
        data[i] = last;
        i += 1;
    }
    assert(data@ =~= played(
        JitterModel { samples: Seq::empty(), capacity: 0, last },
        len as int,
    ));
}

/// Fills the device's buffer `data`: with the oldest waiting samples as
/// far as they go, and behind them with the last sample played. Returns
/// how many fresh samples were played.
pub fn write_audio(audio_receiver: &mut JitterRingBuffer, data: &mut [u32]) -> (written: usize)
    requires
        old(audio_receiver).wf(),
    ensures
        final(audio_receiver).wf(),
        written == fresh_count(old(audio_receiver)@, old(data)@.len() as int),
        final(data)@ == played(old(audio_receiver)@, old(data)@.len() as int),
        final(audio_receiver)@ == after_play(old(audio_receiver)@, old(data)@.len() as int),
{
    let len = data.len();
    let ghost before = audio_receiver@;
    let written = ring_pop(&mut audio_receiver.ring, data);
    let fill = if written > 0 {
        data[written - 1]
    } else {
        audio_receiver.last
    };
    audio_receiver.last = fill;
    let mut i: usize = written;
    while i < len
        invariant
            written <= i <= len,
            len == data@.len(),
            written == fresh_count(before, len as int),
            fill == fill_sample(before, len as int),
            forall|k: int| 0 <= k < written ==> data@[k] == before.samples[k],
            forall|k: int| written <= k < i ==> data@[k] == fill,
        decreases len - i,
    {
        data[i] = fill;
        i += 1;
    }
    written
}

} // verus!
