//! The capture side of the audio path, up to the queue.
//!
//! The input device is picked by its name. Every buffer that it delivers
//! is looked at as raw bytes, whatever the format of its samples: one that
//! is all zero is silence.

use vstd::prelude::*;

verus! {

/// The sample formats that a device may deliver.
#[derive(Clone, Copy, Debug, PartialEq, Eq, Structural)]
pub enum SampleFormat {
    I8,
    I16,
    I32,
    I64,
    U8,
    U16,
    U32,
    U64,
    F32,
    F64,
}

/// The number of bytes that one sample of a format takes.
pub open spec fn sample_size_of(format: SampleFormat) -> nat {
    match format {
        SampleFormat::I8 => 1,
        SampleFormat::U8 => 1,
        SampleFormat::I16 => 2,
        SampleFormat::U16 => 2,
        SampleFormat::I32 => 4,
        SampleFormat::U32 => 4,
        SampleFormat::F32 => 4,
        SampleFormat::I64 => 8,
        SampleFormat::U64 => 8,
        SampleFormat::F64 => 8,
    }
}

impl SampleFormat {
    /// The number of bytes that one sample takes.
    pub fn sample_size(self) -> (size: usize)
        ensures
            size == sample_size_of(self),
    {
        match self {
            SampleFormat::I8 => 1,
            SampleFormat::U8 => 1,
            SampleFormat::I16 => 2,
            SampleFormat::U16 => 2,
            SampleFormat::I32 => 4,
            SampleFormat::U32 => 4,
            SampleFormat::F32 => 4,
            SampleFormat::I64 => 8,
            SampleFormat::U64 => 8,
            SampleFormat::F64 => 8,
        }
    }
}

/// The systems on which the device's audio input has a known name.
#[derive(Clone, Copy, Debug, PartialEq, Eq, Structural)]
pub enum Platform {
    MacOs,
    Linux,
}

/// The name under which a system lists the device's audio input.
pub fn input_device_name(platform: Platform) -> (name: String)
    ensures
        platform == Platform::MacOs ==> name@ == "M8"@,
        platform == Platform::Linux ==> name@ == "iec958:CARD=M8,DEV=0"@,
{
    match platform {
        Platform::MacOs => "M8".to_owned(),
        Platform::Linux => "iec958:CARD=M8,DEV=0".to_owned(),
    }
}

/// Finds the first device with the wanted name among the names of the
/// input devices, in the order in which the system lists them.
pub fn select_device(names: &Vec<String>, wanted: &String) -> (found: Option<usize>)
    ensures
        match found {
            Some(i) => {
                &&& i < names@.len()
                &&& names@[i as int]@ == wanted@
                &&& forall|j: int| 0 <= j < i ==> names@[j]@ != wanted@
            },
            None => forall|j: int| 0 <= j < names@.len() ==> names@[j]@ != wanted@,
        },
{
    let mut i: usize = 0;
    while i < names.len()
        invariant
            i <= names@.len(),
            forall|j: int| 0 <= j < i ==> names@[j]@ != wanted@,
        decreases names@.len() - i,
    {
        if names[i] == *wanted {
            return Some(i);
        }
        i += 1;
    }
    None
}

/// Whether a buffer is silence: every byte of it is zero.
pub open spec fn is_silence(raw: Seq<u8>) -> bool {
    forall|i: int| 0 <= i < raw.len() ==> raw[i] == 0
}

/// Tells whether a buffer is silence.
pub fn is_silent(raw: &[u8]) -> (silent: bool)
    ensures
        silent == is_silence(raw@),
{
    let mut i: usize = 0;
    while i < raw.len()
        invariant
            i <= raw@.len(),
            forall|j: int| 0 <= j < i ==> raw@[j] == 0,
        decreases raw@.len() - i,
    {
        if raw[i] != 0 {
            return false;
        }
        i += 1;
    }
    true
}

/// The number of bytes in `frames` frames of `channels` samples in a
/// format.
pub open spec fn chunk_bytes_of(frames: int, channels: int, format: SampleFormat) -> int {
    frames * channels * sample_size_of(format)
}

/// The number of bytes in `frames` frames of `channels` samples in the
/// given format; none where that number does not fit the machine's word.
pub fn chunk_bytes(frames: usize, channels: usize, format: SampleFormat) -> (bytes: Option<usize>)
    ensures
        match bytes {
            Some(n) => n == chunk_bytes_of(frames as int, channels as int, format),
            None => chunk_bytes_of(frames as int, channels as int, format) > usize::MAX,
        },
{
    let size = format.sample_size();
    let samples = match frames.checked_mul(channels) {
        Some(samples) => samples,
        None => {
            assert(frames * channels * size > usize::MAX) by (nonlinear_arith)
                requires
                    frames * channels > usize::MAX,
                    size >= 1,
            ;
            return None;
        },
    };
    samples.checked_mul(size)
}

} // verus!
