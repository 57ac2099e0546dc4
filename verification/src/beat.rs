//! Onset detection: a follower with an instantaneous attack and a slow
//! release, plus a hold of the peak recorded at the last rising edge.

use vstd::prelude::*;

verus! {

use crate::fixed::ONE;
use crate::fixed::VAL_MAX;
use crate::fixed::spec_blend;
use crate::fixed::blend;
use crate::fixed::spec_coeff_from_time;
use crate::fixed::coeff_from_time;

/// The beat detector.  While the input is at or above the trailing level
/// the level jumps to the input and the peak is re-armed to it; otherwise
/// the level decays with the fixed release coefficient and the peak holds.
pub struct BeatDetector {
    /// Q24 retention factor of the decaying edge.
    pub release: u64,
    /// The trailing level, Q24.
    pub current_level: u64,
    /// The input recorded at the most recent rising edge, Q24; the
    /// normalization denominator for the attack-phase gain.
    pub max_level: u64,
}

impl BeatDetector {
    /// Well-formed: release strictly below one, both levels in range.
    pub open spec fn wf(self) -> bool {
        &&& self.release < ONE
        &&& self.current_level <= VAL_MAX
        &&& self.max_level <= VAL_MAX
    }

    /// The level one `process(level)` call moves to.
    pub open spec fn spec_step_level(self, level: u64) -> u64 {
        if level >= self.current_level {
            level
        } else {
            spec_blend(self.current_level, level, self.release)
        }
    }

    /// The held peak after one `process(level)` call.
    pub open spec fn spec_step_max(self, level: u64) -> u64 {
        if level >= self.current_level {
            level
        } else {
            self.max_level
        }
    }

    /// A detector at rest, with the release derived from a time constant
    /// in Q24 seconds.
    pub fn new(sample_rate: u32, release_time: u64) -> (r: BeatDetector)
        requires
            1 <= sample_rate <= 192000,
            release_time <= 100663296,  // 6.0 s
        ensures
            r.wf(),
            r.release == spec_coeff_from_time(sample_rate, release_time),
            r.current_level == 0,
            r.max_level == 0,
    {
        BeatDetector {
            release: coeff_from_time(sample_rate, release_time),
            current_level: 0,
            max_level: 0,
        }
    }

    /// Advances the detector one sample and returns the new level.  The
    /// returned level rises strictly above the old one exactly when the
    /// input does: that strict rise is the engine's onset signal.
    pub fn process(&mut self, level: u64) -> (r: u64)
        requires
            old(self).wf(),
            level <= VAL_MAX,
        ensures
            final(self).wf(),
            r == final(self).current_level,
            final(self).current_level == old(self).spec_step_level(level),
            final(self).max_level == old(self).spec_step_max(level),
            final(self).release == old(self).release,
            (r > old(self).current_level) <==> (level > old(self).current_level),
    {
        if level >= self.current_level {
            self.current_level = level;
            self.max_level = self.current_level;
        } else {
            self.current_level = blend(self.current_level, level, self.release);
        }
        self.current_level
    }

    /// The peak recorded at the most recent rising edge.
    pub fn max_level(&self) -> (r: u64)
        ensures
            r == self.max_level,
    {
        self.max_level
    }

    /// Peeks the trailing level without advancing.
    pub fn level(&self) -> (r: u64)
        ensures
            r == self.current_level,
    {
        self.current_level
    }
}

} // verus!
