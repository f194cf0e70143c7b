//! The queue in front of a rate converter.
//!
//! Samples wait here, as raw bytes, until there are as many as the next
//! step of the converter takes in. Then exactly that many are cut off the
//! front, and what is left over waits for more. On the capture side
//! silence is dropped before it is queued.

use vstd::prelude::*;
use std::collections::VecDeque;
use crate::capture::{is_silence, is_silent};

verus! {

/// The queue after a buffer arrived from the input device: silence leaves
/// it as it was, any other buffer is put behind what it holds.
pub open spec fn extended(pending: Seq<u8>, raw: Seq<u8>) -> Seq<u8> {
    if is_silence(raw) {
        pending
    } else {
        pending + raw
    }
}

/// Whether a queue that holds `pending` can hand out a chunk of
/// `chunk_len` bytes: the chunk is not empty and that many bytes wait.
pub open spec fn chunk_ready(pending: Seq<u8>, chunk_len: int) -> bool {
    0 < chunk_len <= pending.len()
}

/// The chunk that a queue hands out when one of `chunk_len` bytes is
/// asked for: the first bytes where enough wait, else nothing.
pub open spec fn chunk_of(pending: Seq<u8>, chunk_len: int) -> Seq<u8> {
    if chunk_ready(pending, chunk_len) {
        pending.take(chunk_len)
    } else {
        Seq::empty()
    }
}

/// One thing that happens to a queue.
pub enum QueueEvent {
    /// The input device delivers this buffer.
    Extend(Seq<u8>),
    /// These bytes are queued as they are.
    Push(Seq<u8>),
    /// A chunk of this length is asked for.
    Take(int),
}

/// The bytes that an event brings into a queue.
pub open spec fn brought_in(event: QueueEvent) -> Seq<u8> {
    match event {
        QueueEvent::Extend(raw) => extended(Seq::empty(), raw),
        QueueEvent::Push(bytes) => bytes,
        QueueEvent::Take(_) => Seq::empty(),
    }
}

/// The bytes that an event takes out of a queue that holds `pending`.
pub open spec fn brought_out(pending: Seq<u8>, event: QueueEvent) -> Seq<u8> {
    match event {
        QueueEvent::Take(chunk_len) => chunk_of(pending, chunk_len),
        _ => Seq::empty(),
    }
}

/// The bytes that wait in a queue after one event.
pub open spec fn queue_after(pending: Seq<u8>, event: QueueEvent) -> Seq<u8> {
    match event {
        QueueEvent::Extend(raw) => extended(pending, raw),
        QueueEvent::Push(bytes) => pending + bytes,
        QueueEvent::Take(chunk_len) => if chunk_ready(pending, chunk_len) {
            pending.skip(chunk_len)
        } else {
            pending
        },
    }
}

/// The bytes that wait in a queue after a run of events.
pub open spec fn queue_run(pending: Seq<u8>, events: Seq<QueueEvent>) -> Seq<u8>
    decreases events.len(),
{
    if events.len() == 0 {
        pending
    } else {
        queue_run(queue_after(pending, events[0]), events.skip(1))
    }
}

/// All the bytes that a queue hands out in chunks during a run of
/// events, in order.
pub open spec fn handed_out(pending: Seq<u8>, events: Seq<QueueEvent>) -> Seq<u8>
    decreases events.len(),
{
    if events.len() == 0 {
        Seq::empty()
    } else {
        brought_out(pending, events[0]) + handed_out(
            queue_after(pending, events[0]),
            events.skip(1),
        )
    }
}

/// All the bytes that are queued during a run of events, in order:
/// every buffer from the device that is not silence, and everything that
/// is queued as it is.
pub open spec fn delivered_bytes(events: Seq<QueueEvent>) -> Seq<u8>
    decreases events.len(),
{
    if events.len() == 0 {
        Seq::empty()
    } else {
        brought_in(events[0]) + delivered_bytes(events.skip(1))
    }
}

/// Silence that arrives at a queue without a ready chunk leaves it
/// without one: an all-zero buffer never leads to a chunk, whatever the
/// width of its samples.
pub proof fn lemma_silence_yields_no_chunk(pending: Seq<u8>, raw: Seq<u8>, chunk_len: int)
    requires
        is_silence(raw),
        !chunk_ready(pending, chunk_len),
    ensures
        queue_after(pending, QueueEvent::Extend(raw)) == pending,
        !chunk_ready(queue_after(pending, QueueEvent::Extend(raw)), chunk_len),
        brought_out(
            queue_after(pending, QueueEvent::Extend(raw)),
            QueueEvent::Take(chunk_len),
        ) == Seq::<u8>::empty(),
{
}

/// A buffer that is too short to fill a chunk stays in the queue whole;
/// when the next buffer fills the chunk, the chunk is made of the waiting
/// bytes and then of the two buffers, in the order of arrival.
pub proof fn lemma_short_input_stays_queued(
    pending: Seq<u8>,
    first: Seq<u8>,
    second: Seq<u8>,
    chunk_len: int,
)
    requires
        !is_silence(first),
        !is_silence(second),
        pending.len() + first.len() < chunk_len,
        chunk_len <= pending.len() + first.len() + second.len(),
    ensures
        !chunk_ready(extended(pending, first), chunk_len),
        extended(pending, first) == pending + first,
        chunk_of(extended(extended(pending, first), second), chunk_len) == (pending + first
            + second).take(chunk_len),
{
}

/// The queue drops and repeats nothing, however buffers arrive and
/// chunks are asked for: the bytes handed out so far, followed by those
/// that still wait, are the bytes that waited at the start followed by
/// everything queued since.
pub proof fn lemma_queue_keeps_every_byte(pending: Seq<u8>, events: Seq<QueueEvent>)
    ensures
        handed_out(pending, events) + queue_run(pending, events) == pending + delivered_bytes(
            events,
        ),
    decreases events.len(),
{
    if events.len() > 0 {
        let next = queue_after(pending, events[0]);
        let rest = events.skip(1);
        lemma_queue_keeps_every_byte(next, rest);
        let chunk = brought_out(pending, events[0]);
        let out = handed_out(next, rest);
        let last = queue_run(next, rest);
        assert(chunk + out + last =~= chunk + (out + last));
    }
}

/// The queue: the bytes that wait for a chunk to fill up.
pub struct SampleQueue {
    pending: VecDeque<u8>,
}

impl View for SampleQueue {
    type V = Seq<u8>;

    closed spec fn view(&self) -> Seq<u8> {
        self.pending@
    }
}

impl SampleQueue {
    /// An empty queue.
    pub fn new() -> (queue: Self)
        ensures
            queue@ == Seq::<u8>::empty(),
    {
        SampleQueue { pending: VecDeque::new() }
    }

    /// No more bytes wait than the machine can count.
    pub proof fn lemma_pending_fits(&self)
        ensures
            self@.len() <= usize::MAX,
    {
        assert(self.pending@.len() == self.pending.len());
    }

    /// The number of bytes that wait.
    pub fn pending_len(&self) -> (n: usize)
        ensures
            n == self@.len(),
    {
        self.pending.len()
    }

    /// Takes in one buffer from the input device, as raw bytes. Silence is
    /// dropped and changes nothing; any other buffer is put behind the
    /// waiting bytes. Tells whether the buffer was queued.
    pub fn extend(&mut self, raw: &[u8]) -> (queued: bool)
        ensures
            queued == !is_silence(raw@),
            final(self)@ == queue_after(old(self)@, QueueEvent::Extend(raw@)),
    {
        if is_silent(raw) {
            return false;
        }
        self.push(raw);
        true
    }

    /// Puts bytes behind the waiting ones, whatever they hold.
    pub fn push(&mut self, bytes: &[u8])
        ensures
            final(self)@ == queue_after(old(self)@, QueueEvent::Push(bytes@)),
    {
        let n = bytes.len();
        let mut i: usize = 0;
        while i < n
            invariant
                i <= n,
                n == bytes@.len(),
                self.pending@ == old(self).pending@ + bytes@.take(i as int),
            decreases n - i,
        {
            self.pending.push_back(bytes[i]);
            i += 1;
        }
    }

    /// Hands out the next chunk of `chunk_len` bytes, the input of one
    /// step of the rate converter, once that many bytes wait: the chunk is
    /// taken off the front and the rest keeps waiting. Until then, and for
    /// an empty chunk, nothing is handed out and nothing changes.
    pub fn next_chunk(&mut self, chunk_len: usize) -> (chunk: Option<Vec<u8>>)
        ensures
            final(self)@ == queue_after(old(self)@, QueueEvent::Take(chunk_len as int)),
            match chunk {
                Some(bytes) => chunk_ready(old(self)@, chunk_len as int) && bytes@ == chunk_of(
                    old(self)@,
                    chunk_len as int,
                ),
                None => !chunk_ready(old(self)@, chunk_len as int),
            },
    {
        if chunk_len == 0 || self.pending.len() < chunk_len {
            return None;
        }
        let mut bytes: Vec<u8> = Vec::new();
        while bytes.len() < chunk_len
            invariant
                bytes@.len() <= chunk_len <= old(self).pending@.len(),
                bytes@ == old(self).pending@.take(bytes@.len() as int),
                self.pending@ == old(self).pending@.skip(bytes@.len() as int),
            decreases chunk_len - bytes@.len(),
        {
            if let Some(byte) = self.pending.pop_front() {
                bytes.push(byte);
            }
        }
        Some(bytes)
    }
}

} // verus!
