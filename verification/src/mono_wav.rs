//! # WAV
//!
//! A wave data player.

use crate::types::{Math, Sample};
use vstd::prelude::*;

verus! {

/// What a resampler of a mono track is set up with: the track, the rate it
/// is played at, the rate it was recorded at, and the loop points. Loop
/// points of 0 and 0 stand for a track that is played once.
pub struct ResamplerSetup {
    pub track: Vec<Sample>,
    pub sample_rate: Math,
    pub source_sampling_rate: Math,
    pub loop_start: usize,
    pub loop_end: usize,
}

/// Struct for playing wave files.
pub struct MonoWav {
    resam: ResamplerSetup,
}

impl Clone for ResamplerSetup {
    /// The copy holds the same track, rates and loop points.
    fn clone(&self) -> (c: Self)
        ensures
            c.track@ == self.track@,
            c.sample_rate == self.sample_rate,
            c.source_sampling_rate == self.source_sampling_rate,
            c.loop_start == self.loop_start,
            c.loop_end == self.loop_end,
    {
        let track = self.track.clone();
        assert(track@ =~= self.track@);
        ResamplerSetup {
            track,
            sample_rate: self.sample_rate,
            source_sampling_rate: self.source_sampling_rate,
            loop_start: self.loop_start,
            loop_end: self.loop_end,
        }
    }
}

impl Clone for MonoWav {
    /// The copy is set up as the player is.
    fn clone(&self) -> (c: Self)
        ensures
            c@.track@ == self@.track@,
            c@.sample_rate == self@.sample_rate,
            c@.source_sampling_rate == self@.source_sampling_rate,
            c@.loop_start == self@.loop_start,
            c@.loop_end == self@.loop_end,
    {
        MonoWav { resam: self.resam.clone() }
    }
}

impl View for MonoWav {
    type V = ResamplerSetup;

    closed spec fn view(&self) -> ResamplerSetup {
        self.resam
    }
}

impl MonoWav {
    /// Converts from the given track and source sample rate. The track is
    /// played once, without a loop.
    pub fn from_track(sample_rate: Math, source_sampling_rate: Math, t: Vec<Sample>) -> (w: MonoWav)
        ensures
            w@ == (ResamplerSetup {
                track: t,
                sample_rate,
                source_sampling_rate,
                loop_start: 0,
                loop_end: 0,
            }),
    {
        MonoWav {
            resam: ResamplerSetup {
                track: t,
                sample_rate,
                source_sampling_rate,
                loop_start: 0,
                loop_end: 0,
            },
        }
    }

    /// Borrows the resampler object.
    pub fn get(&self) -> (r: &ResamplerSetup)
        ensures
            *r == self@,
    {
        &self.resam
    }

    /// Mutably borrows the resampler object: what the borrower leaves in it
    /// is what the player holds afterwards.
    pub fn get_mut(&mut self) -> (r: &mut ResamplerSetup)
        ensures
            *r == old(self)@,
            final(self)@ == *final(r),
    {
        &mut self.resam
    }
}

} // verus!
