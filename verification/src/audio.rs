//! The shape of the audio that travels between the bridge and its
//! viewers: stereo, at one fixed rate, in packets of one fixed length.

use vstd::prelude::*;

verus! {

/// Sample rate at which audio is encoded, in frames per second.
pub const SAMPLE_RATE: usize = 48000;

/// Number of channels of the audio path.
pub const NUM_CHANNELS: usize = 2;

/// Number of frames in one encoded packet.
pub const OPUS_CHUNK_SIZE: usize = 960;

/// Number of samples in one encoded packet, and in the buffer that a
/// packet is decoded into.
pub const PACKET_SAMPLES: usize = 1920;

/// The packet holds one sample of every channel for each of its frames.
pub proof fn lemma_packet_samples()
    ensures
        PACKET_SAMPLES == OPUS_CHUNK_SIZE * NUM_CHANNELS,
{
}

/// How many samples at the front of the decode buffer are valid after
/// the codec has decoded `frames` frames into it: one for every channel of
/// every frame. None where that is more than the buffer holds.
pub fn decoded_samples(frames: usize) -> (samples: Option<usize>)
    ensures
        match samples {
            Some(n) => n == frames * NUM_CHANNELS && n <= PACKET_SAMPLES,
            None => frames * NUM_CHANNELS > PACKET_SAMPLES,
        },
{
    if frames <= OPUS_CHUNK_SIZE {
        Some(frames * NUM_CHANNELS)
    } else {
        None
    }
}

} // verus!
