//! The stand-in synthesizer used when no Kokoro model is mounted.
use vstd::prelude::*;

verus! {

/// A synthesizer that answers every request with a tenth of a second of silence at
/// 24 kHz, whatever the text, speaker or speed.
#[derive(Clone, Copy, Debug)]
pub struct MockSynthesizer;

impl MockSynthesizer {
    /// The sample rate of the silence, in samples per second.
    pub fn sample_rate(&self) -> (r: i32)
        ensures
            r == 24_000,
    {
        24_000
    }

    /// The number of (zero) samples in the silence: a tenth of the sample rate.
    pub fn sample_count(&self) -> (r: usize)
        ensures
            r == 2_400,
            r * 10 == 24_000,
    {
        24_000 / 10
    }
}

} // verus!
