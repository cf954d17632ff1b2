use vstd::prelude::*;

verus! {

/// Sample rate of the decoded audio, in Hz.
pub const SAMPLE_RATE: u32 = 48000;

/// Number of interleaved channels (stereo).
pub const CHANNELS: u16 = 2;

/// Duration of one encoded frame, in milliseconds.
pub const FRAME_DURATION_MS: u32 = 10;

/// Interleaved samples in one 10 ms stereo frame: 48000 * 2 / 100.
pub const SAMPLES_PER_FRAME: usize = 960;

/// A decoded frame of interleaved 16-bit PCM samples.
#[derive(Debug, Clone)]
pub struct PcmFrame {
    pub samples: Vec<i16>,
    pub timestamp: u64,
}

/// The frame size follows from the sample rate, the channel count and the
/// frame duration.
pub proof fn law_samples_per_frame()
    ensures
        SAMPLES_PER_FRAME == SAMPLE_RATE * CHANNELS * FRAME_DURATION_MS / 1000,
{
}

/// The zeroed buffer that one frame is decoded into.
pub fn new_pcm_buffer() -> (r: Vec<i16>)
    ensures
        r@ == Seq::new(SAMPLES_PER_FRAME as nat, |i: int| 0i16),
{
    let r = vec![0i16; SAMPLES_PER_FRAME];
    assert(r@ =~= Seq::new(SAMPLES_PER_FRAME as nat, |i: int| 0i16));
    r
}

impl PcmFrame {
    /// The frame of decoded `samples`, stamped with `timestamp`.
    pub fn with_timestamp(samples: Vec<i16>, timestamp: u64) -> (r: PcmFrame)
        ensures
            r.samples@ == samples@,
            r.timestamp == timestamp,
    {
        PcmFrame { samples, timestamp }
    }
}

} // verus!
