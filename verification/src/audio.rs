//! Audio preprocessing parameters.
//!
//! The processor records the target sample rate and the fixed analysis
//! parameters used when audio is prepared for the engine. The sample data
//! itself is decoded and resampled by outside collaborators; this type
//! carries the parameters they are driven with.

use vstd::prelude::*;

use crate::error::DattavaniError;

verus! {

/// Preprocessing parameters for audio handed to the engine.
#[derive(Debug, Clone, PartialEq)]
pub struct AudioProcessor {
    pub target_sample_rate: u32,
    pub n_fft: usize,
    pub hop_length: usize,
    pub n_mels: usize,
}

impl AudioProcessor {
    /// A processor for the given target sample rate, with the standard
    /// analysis window: a 400-sample transform, a 160-sample hop, and 80
    /// mel bands.
    pub fn new(target_sample_rate: u32) -> (r: Result<AudioProcessor, DattavaniError>)
        ensures
            r matches Ok(p) && p.target_sample_rate == target_sample_rate && p.n_fft == 400usize
                && p.hop_length == 160usize && p.n_mels == 80usize,
    {
        Ok(AudioProcessor { target_sample_rate, n_fft: 400, hop_length: 160, n_mels: 80 })
    }
}

} // verus!
