//! The discipline around a stereo rate converter.
//!
//! The converter itself works on one buffer per channel and is not part of
//! this library. What is decided here is whether it is needed at all, when
//! it runs, how interleaved samples are split into the two channels that
//! it reads, and how the two channels that it writes are woven together
//! again. `AudioResampler` holds the pending input and makes a step only
//! of a whole chunk. None of this looks at a sample's value.

use vstd::prelude::*;
use crate::audio::{NUM_CHANNELS, OPUS_CHUNK_SIZE, PACKET_SAMPLES};
use crate::capture::{
    chunk_bytes, chunk_bytes_of, is_silence, sample_size_of, SampleFormat,
};
use crate::queue::{chunk_of, chunk_ready, queue_after, QueueEvent, SampleQueue};

verus! {

/// The left channel of interleaved stereo samples: every sample at an
/// even place, for as many frames as are complete.
pub open spec fn left_of<T>(samples: Seq<T>) -> Seq<T> {
    Seq::new((samples.len() / 2) as nat, |i: int| samples[2 * i])
}

/// The right channel of interleaved stereo samples: every sample at an
/// odd place.
pub open spec fn right_of<T>(samples: Seq<T>) -> Seq<T> {
    Seq::new((samples.len() / 2) as nat, |i: int| samples[2 * i + 1])
}

/// The first `frames` samples of two channels woven together, left
/// first.
pub open spec fn interleaved<T>(left: Seq<T>, right: Seq<T>, frames: int) -> Seq<T> {
    Seq::new(
        (2 * frames) as nat,
        |i: int|
            if i % 2 == 0 {
                left[i / 2]
            } else {
                right[i / 2]
            },
    )
}

/// Splitting an even number of interleaved samples into channels and
/// weaving the channels together again gives back the samples.
pub proof fn lemma_interleave_restores<T>(samples: Seq<T>)
    requires
        samples.len() % 2 == 0,
    ensures
        interleaved(left_of(samples), right_of(samples), samples.len() as int / 2) == samples,
{
}

/// Weaving two channels together and splitting the result gives back the
/// first `frames` samples of each channel.
pub proof fn lemma_deinterleave_restores<T>(left: Seq<T>, right: Seq<T>, frames: int)
    requires
        0 <= frames <= left.len(),
        frames <= right.len(),
    ensures
        left_of(interleaved(left, right, frames)) == left.take(frames),
        right_of(interleaved(left, right, frames)) == right.take(frames),
{
}

/// Splits interleaved stereo samples into the left and the right
/// channel. A last sample without a partner is left out.
pub fn deinterleave<T: Copy>(samples: &[T]) -> (channels: (Vec<T>, Vec<T>))
    ensures
        channels.0@ == left_of(samples@),
        channels.1@ == right_of(samples@),
{
    let n = samples.len();
    let frames = n / 2;
    let mut left: Vec<T> = Vec::new();
    let mut right: Vec<T> = Vec::new();
    let mut i: usize = 0;
    while i < frames
        invariant
            i <= frames,
            n == samples@.len(),
            frames == n / 2,
            left@ == left_of(samples@).take(i as int),
            right@ == right_of(samples@).take(i as int),
        decreases frames - i,
    {
        left.push(samples[2 * i]);
        right.push(samples[2 * i + 1]);
        i += 1;
    }
    (left, right)
}

/// Weaves the first `frames` samples of two channels together, left
/// first.
pub fn interleave<T: Copy>(left: &[T], right: &[T], frames: usize) -> (samples: Vec<T>)
    requires
        frames <= left@.len(),
        frames <= right@.len(),
    ensures
        samples@ == interleaved(left@, right@, frames as int),
{
    let mut samples: Vec<T> = Vec::new();
    let mut i: usize = 0;
    while i < frames
        invariant
            i <= frames,
            frames <= left@.len(),
            frames <= right@.len(),
            samples@ == interleaved(left@, right@, i as int),
        decreases frames - i,
    {
        samples.push(left[i]);
        samples.push(right[i]);
        i += 1;
    }
    samples
}

/// Weaves what the converter wrote into one packet for the encoder: the
/// first `frames` samples of both channels, where that is exactly a
/// packet's worth of frames and both channels hold them. Any other count
/// gives no packet.
pub fn packet_of<T: Copy>(left: &[T], right: &[T], frames: usize) -> (packet: Option<Vec<T>>)
    ensures
        match packet {
            Some(samples) => {
                &&& frames == OPUS_CHUNK_SIZE
                &&& frames <= left@.len()
                &&& frames <= right@.len()
                &&& samples@ == interleaved(left@, right@, frames as int)
                &&& samples@.len() == PACKET_SAMPLES
            },
            None => frames != OPUS_CHUNK_SIZE || frames > left@.len() || frames > right@.len(),
        },
{
    if frames == OPUS_CHUNK_SIZE && frames <= left.len() && frames <= right.len() {
        Some(interleave(left, right, frames))
    } else {
        None
    }
}

/// What is to be done with a run of interleaved samples.
#[derive(Debug, PartialEq, Eq)]
pub enum ResampleStep<T> {
    /// The rates are equal: these are the samples, unchanged.
    Passthrough(Vec<T>),
    /// The rates differ: these two channels go through the converter.
    Convert(Vec<T>, Vec<T>),
}

/// What a `ResampleStep` holds, as a mathematical value.
pub enum ResampleStepModel<T> {
    Passthrough(Seq<T>),
    Convert(Seq<T>, Seq<T>),
}

impl<T> View for ResampleStep<T> {
    type V = ResampleStepModel<T>;

    open spec fn view(&self) -> ResampleStepModel<T> {
        match self {
            ResampleStep::Passthrough(samples) => ResampleStepModel::Passthrough(samples@),
            ResampleStep::Convert(left, right) => ResampleStepModel::Convert(left@, right@),
        }
    }
}

/// The left channel of interleaved stereo samples that are held as raw
/// bytes, `width` bytes to a sample: the first sample of every complete
/// frame, laid end to end.
pub open spec fn left_bytes(chunk: Seq<u8>, width: int) -> Seq<u8>
    decreases chunk.len(),
{
    if width <= 0 || chunk.len() < 2 * width {
        Seq::empty()
    } else {
        chunk.take(width) + left_bytes(chunk.skip(2 * width), width)
    }
}

/// The right channel of interleaved stereo samples that are held as raw
/// bytes: the second sample of every complete frame, laid end to end.
pub open spec fn right_bytes(chunk: Seq<u8>, width: int) -> Seq<u8>
    decreases chunk.len(),
{
    if width <= 0 || chunk.len() < 2 * width {
        Seq::empty()
    } else {
        chunk.subrange(width, 2 * width) + right_bytes(chunk.skip(2 * width), width)
    }
}

/// The step for a chunk of raw bytes at `src_rate` that is wanted at
/// `dest_rate`: the chunk itself where the rates are equal, its two
/// channels where they differ.
pub open spec fn byte_step_for(src_rate: usize, dest_rate: usize, chunk: Seq<u8>, width: int)
    -> ResampleStepModel<u8> {
    if src_rate == dest_rate {
        ResampleStepModel::Passthrough(chunk)
    } else {
        ResampleStepModel::Convert(left_bytes(chunk, width), right_bytes(chunk, width))
    }
}

/// A chunk of whole frames splits into two channels of one sample for
/// every frame each: nothing of it is left over.
pub proof fn lemma_channels_hold_every_frame(chunk: Seq<u8>, width: int, frames: int)
    requires
        0 < width,
        0 <= frames,
        chunk.len() == frames * (2 * width),
    ensures
        left_bytes(chunk, width).len() == frames * width,
        right_bytes(chunk, width).len() == frames * width,
    decreases frames,
{
    if frames > 0 {
        assert(frames * (2 * width) == (frames - 1) * (2 * width) + 2 * width) by (nonlinear_arith);
        assert(frames * width == (frames - 1) * width + width) by (nonlinear_arith);
        assert((frames - 1) * (2 * width) >= 0) by (nonlinear_arith)
            requires
                frames >= 1,
                width > 0,
        ;
        lemma_channels_hold_every_frame(chunk.skip(2 * width), width, frames - 1);
    } else {
        assert(frames * (2 * width) == 0) by (nonlinear_arith)
            requires
                frames == 0,
        ;
        assert(frames * width == 0) by (nonlinear_arith)
            requires
                frames == 0,
        ;
    }
}

/// Splits a chunk of raw stereo samples into its two channels.
fn split_channels(chunk: &[u8], width: usize) -> (channels: (Vec<u8>, Vec<u8>))
    requires
        0 < width <= 8,
    ensures
        channels.0@ == left_bytes(chunk@, width as int),
        channels.1@ == right_bytes(chunk@, width as int),
{
    let n = chunk.len();
    let frame = 2 * width;
    let mut left: Vec<u8> = Vec::new();
    let mut right: Vec<u8> = Vec::new();
    let mut at: usize = 0;
    assert(chunk@.skip(0) =~= chunk@);
    while n - at >= frame
        invariant
            0 < width <= 8,
            frame == 2 * width,
            at <= n,
            n == chunk@.len(),
            left_bytes(chunk@, width as int) == left@ + left_bytes(
                chunk@.skip(at as int),
                width as int,
            ),
            right_bytes(chunk@, width as int) == right@ + right_bytes(
                chunk@.skip(at as int),
                width as int,
            ),
        decreases n - at,
    {
        let ghost rest = chunk@.skip(at as int);
        let ghost before_left = left@;
        let ghost before_right = right@;
        left.extend_from_slice(vstd::slice::slice_subrange(chunk, at, at + width));
        right.extend_from_slice(vstd::slice::slice_subrange(chunk, at + width, at + frame));
        proof {
            assert(rest.skip(2 * width) =~= chunk@.skip(at + frame));
            assert(before_left + (rest.take(width as int) + left_bytes(
                rest.skip(2 * width),
                width as int,
            )) =~= left@ + left_bytes(rest.skip(2 * width), width as int));
            assert(before_right + (rest.subrange(width as int, 2 * width) + right_bytes(
                rest.skip(2 * width),
                width as int,
            )) =~= right@ + right_bytes(rest.skip(2 * width), width as int));
        }
        at += frame;
    }
    (left, right)
}

/// What a resampler holds, as a mathematical value.
pub struct ResamplerModel {
    /// The bytes that wait for a chunk to fill up.
    pub pending: Seq<u8>,
    pub src_rate: usize,
    pub dest_rate: usize,
    /// The format of the samples that wait.
    pub format: SampleFormat,
}

/// The number of bytes in `frames` stereo frames of a format.
pub open spec fn frames_bytes(frames: int, format: SampleFormat) -> int {
    chunk_bytes_of(frames, NUM_CHANNELS as int, format)
}

/// The step that a resampler makes when `frames` frames are asked of it,
/// if it makes one: the first chunk of what is pending, unchanged where
/// the rates are equal and in two channels where they differ.
pub open spec fn step_of(resampler: ResamplerModel, frames: int) -> Option<ResampleStepModel<u8>> {
    if chunk_ready(resampler.pending, frames_bytes(frames, resampler.format)) {
        Some(
            byte_step_for(
                resampler.src_rate,
                resampler.dest_rate,
                chunk_of(resampler.pending, frames_bytes(frames, resampler.format)),
                sample_size_of(resampler.format) as int,
            ),
        )
    } else {
        None
    }
}

/// The resampler after `frames` frames were asked of it: the chunk of the
/// step is gone from what is pending, and without a step nothing changes.
pub open spec fn after_step(resampler: ResamplerModel, frames: int) -> ResamplerModel {
    ResamplerModel {
        pending: queue_after(
            resampler.pending,
            QueueEvent::Take(frames_bytes(frames, resampler.format)),
        ),
        ..resampler
    }
}

/// The resampler after bytes were put behind what is pending.
pub open spec fn after_push(resampler: ResamplerModel, bytes: Seq<u8>) -> ResamplerModel {
    ResamplerModel { pending: resampler.pending + bytes, ..resampler }
}

/// Samples that are too few for a step are kept: a short input makes no
/// step and stays pending whole, and when the next input fills the chunk,
/// the step is made of what was pending and then of the two inputs, in
/// the order in which they came. Nothing is dropped or repeated.
pub proof fn lemma_short_input_waits(
    resampler: ResamplerModel,
    first: Seq<u8>,
    second: Seq<u8>,
    frames: int,
)
    requires
        resampler.pending.len() + first.len() < frames_bytes(frames, resampler.format),
        frames_bytes(frames, resampler.format) <= resampler.pending.len() + first.len()
            + second.len(),
    ensures
        step_of(after_push(resampler, first), frames) is None,
        after_step(after_push(resampler, first), frames).pending == resampler.pending + first,
        step_of(after_push(after_push(resampler, first), second), frames) == Some(
            byte_step_for(
                resampler.src_rate,
                resampler.dest_rate,
                (resampler.pending + first + second).take(frames_bytes(frames, resampler.format)),
                sample_size_of(resampler.format) as int,
            ),
        ),
        after_step(after_push(after_push(resampler, first), second), frames).pending == (
        resampler.pending + first + second).skip(frames_bytes(frames, resampler.format)),
{
}

/// The state around a rate converter: the pending input, and the rates
/// that say whether the converter is needed. A step is only ever made of
/// a whole chunk, as many frames as the converter asks for; what is left
/// over waits for the next input.
pub struct AudioResampler {
    queue: SampleQueue,
    src_rate: usize,
    dest_rate: usize,
    format: SampleFormat,
}

impl View for AudioResampler {
    type V = ResamplerModel;

    closed spec fn view(&self) -> ResamplerModel {
        ResamplerModel {
            pending: self.queue@,
            src_rate: self.src_rate,
            dest_rate: self.dest_rate,
            format: self.format,
        }
    }
}

impl AudioResampler {
    /// A resampler with nothing pending, for decoded samples, which are
    /// 32-bit floats, on their way from `src_rate` to `dest_rate`.
    pub fn new(src_rate: usize, dest_rate: usize) -> (resampler: Self)
        ensures
            resampler@ == (ResamplerModel {
                pending: Seq::empty(),
                src_rate,
                dest_rate,
                format: SampleFormat::F32,
            }),
    {
        Self::with_format(src_rate, dest_rate, SampleFormat::F32)
    }

    /// A resampler with nothing pending, for samples of the given format
    /// on their way from `src_rate` to `dest_rate`.
    pub fn with_format(src_rate: usize, dest_rate: usize, format: SampleFormat) -> (resampler:
        Self)
        ensures
            resampler@ == (ResamplerModel { pending: Seq::empty(), src_rate, dest_rate, format }),
    {
        AudioResampler { queue: SampleQueue::new(), src_rate, dest_rate, format }
    }

    /// Whether samples pass through unchanged: the two rates are equal.
    pub fn is_passthrough(&self) -> (same: bool)
        ensures
            same == (self@.src_rate == self@.dest_rate),
    {
        self.src_rate == self.dest_rate
    }

    /// The number of bytes that wait.
    pub fn pending_len(&self) -> (n: usize)
        ensures
            n == self@.pending.len(),
    {
        self.queue.pending_len()
    }

    /// How many frames the next step takes in: a packet's worth where the
    /// samples pass through, and as many as the converter asks for where
    /// it is needed.
    pub fn frames_needed(&self, converter_frames: usize) -> (frames: usize)
        ensures
            frames == if self@.src_rate == self@.dest_rate {
                OPUS_CHUNK_SIZE
            } else {
                converter_frames
            },
    {
        if self.is_passthrough() {
            OPUS_CHUNK_SIZE
        } else {
            converter_frames
        }
    }

    /// Takes in one buffer from the input device, as raw bytes. Silence is
    /// dropped and changes nothing; any other buffer is put behind the
    /// pending bytes. Tells whether the buffer was queued.
    pub fn extend(&mut self, raw: &[u8]) -> (queued: bool)
        ensures
            queued == !is_silence(raw@),
            final(self)@ == (ResamplerModel {
                pending: queue_after(old(self)@.pending, QueueEvent::Extend(raw@)),
                ..old(self)@
            }),
    {
        self.queue.extend(raw)
    }

    /// Puts bytes behind the pending ones, whatever they hold.
    pub fn push(&mut self, bytes: &[u8])
        ensures
            final(self)@ == after_push(old(self)@, bytes@),
    {
        self.queue.push(bytes)
    }

    /// Makes the next step, once `frames` whole frames are pending: they
    /// are taken off the front and handed on, unchanged where the rates
    /// are equal and split into their two channels where they differ.
    /// Until then, and for no frames at all, there is no step and nothing
    /// changes.
    pub fn next_step(&mut self, frames: usize) -> (step: Option<ResampleStep<u8>>)
        ensures
            final(self)@ == after_step(old(self)@, frames as int),
            match step {
                Some(s) => step_of(old(self)@, frames as int) == Some(s@),
                None => step_of(old(self)@, frames as int) is None,
            },
    {
        let need = match chunk_bytes(frames, NUM_CHANNELS, self.format) {
            Some(need) => need,
            None => {
                proof {
                    self.queue.lemma_pending_fits();
                }
                return None;
            },
        };
        match self.queue.next_chunk(need) {
            None => None,
            Some(chunk) => {
                if self.is_passthrough() {
                    Some(ResampleStep::Passthrough(chunk))
                } else {
                    let (left, right) = split_channels(
                        chunk.as_slice(),
                        self.format.sample_size(),
                    );
                    Some(ResampleStep::Convert(left, right))
                }
            },
        }
    }

    /// Takes in samples, as raw bytes, and makes a step if `frames` whole
    /// frames are pending with them. Samples that are too few for a step
    /// wait for the next call; of more than one chunk the rest waits, and
    /// `next_step` hands it out.
    pub fn resample(&mut self, samples: &[u8], frames: usize) -> (step: Option<ResampleStep<u8>>)
        ensures
            final(self)@ == after_step(after_push(old(self)@, samples@), frames as int),
            match step {
                Some(s) => step_of(after_push(old(self)@, samples@), frames as int) == Some(s@),
                None => step_of(after_push(old(self)@, samples@), frames as int) is None,
            },
    {
        self.push(samples);
        self.next_step(frames)
    }
}

} // verus!
