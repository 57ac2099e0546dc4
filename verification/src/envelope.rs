//! The asymmetric one-pole level follower: rises with the attack
//! coefficient, falls with the release coefficient.

use vstd::prelude::*;

verus! {

use crate::fixed::ONE;
use crate::fixed::VAL_MAX;
use crate::fixed::spec_blend;
use crate::fixed::blend;
use crate::fixed::spec_coeff_from_time;
use crate::fixed::coeff_from_time;

/// An envelope follower.  `process` blends the stored level toward the
/// input, using the attack coefficient while the input is at or above the
/// level and the release coefficient while it is below.
pub struct EnvelopeDetector {
    /// Q24 retention factor used while the input rises.
    pub attack: u64,
    /// Q24 retention factor used while the input falls.
    pub release: u64,
    /// The sample rate the coefficients are derived from, Hz.
    pub sample_rate: u32,
    /// The tracked level, Q24.
    pub current_level: u64,
}

impl EnvelopeDetector {
    /// Well-formed: both retention factors strictly below one, the level
    /// within the Q24 working range, the sample rate a real audio rate.
    pub open spec fn wf(self) -> bool {
        &&& self.attack < ONE
        &&& self.release < ONE
        &&& self.current_level <= VAL_MAX
        &&& 1 <= self.sample_rate <= 192000
    }

    /// The level one `process(level)` call moves to.
    pub open spec fn spec_step(self, level: u64) -> u64 {
        if level >= self.current_level {
            spec_blend(self.current_level, level, self.attack)
        } else {
            spec_blend(self.current_level, level, self.release)
        }
    }

    /// A follower at level zero with instantaneous (zero) coefficients.
    pub fn new(sample_rate: u32) -> (r: EnvelopeDetector)
        requires
            1 <= sample_rate <= 192000,
        ensures
            r.wf(),
            r.attack == 0,
            r.release == 0,
            r.current_level == 0,
            r.sample_rate == sample_rate,
    {
        EnvelopeDetector { attack: 0, release: 0, sample_rate, current_level: 0 }
    }

    /// Derives both retention factors from time constants in Q24 seconds:
    /// `exp(-1 / (fs t))`, instantaneous when the time constant is zero.
    pub fn set_params(&mut self, attack_time: u64, release_time: u64)
        requires
            old(self).wf(),
            attack_time <= 100663296,  // 6.0 s
            release_time <= 100663296,
        ensures
            final(self).wf(),
            final(self).attack == spec_coeff_from_time(old(self).sample_rate, attack_time),
            final(self).release == spec_coeff_from_time(old(self).sample_rate, release_time),
            final(self).current_level == old(self).current_level,
            final(self).sample_rate == old(self).sample_rate,
    {
        self.attack = coeff_from_time(self.sample_rate, attack_time);
        self.release = coeff_from_time(self.sample_rate, release_time);
    }

    /// Advances the follower one sample and returns the new level.  The
    /// result stays between the old level and the input, and an input equal
    /// to the level leaves the follower exactly where it was — repeated
    /// calls on constant input are idempotent once converged.
    pub fn process(&mut self, level: u64) -> (r: u64)
        requires
            old(self).wf(),
            level <= VAL_MAX,
        ensures
            final(self).wf(),
            r == final(self).current_level,
            final(self).current_level == old(self).spec_step(level),
            final(self).attack == old(self).attack,
            final(self).release == old(self).release,
            final(self).sample_rate == old(self).sample_rate,
            old(self).current_level <= level ==> old(self).current_level <= r <= level,
            level <= old(self).current_level ==> level <= r <= old(self).current_level,
            old(self).current_level == level ==> r == level,
    {
        if level >= self.current_level {
            self.current_level = blend(self.current_level, level, self.attack);
        } else {
            self.current_level = blend(self.current_level, level, self.release);
        }
        self.current_level
    }

    /// Peeks the current level without advancing.
    pub fn level(&self) -> (r: u64)
        ensures
            r == self.current_level,
    {
        self.current_level
    }

    /// Snaps the follower to a level, discarding its history; used when the
    /// state machine changes phase so no stale motion carries over.
    pub fn reset(&mut self, level: u64)
        requires
            old(self).wf(),
            level <= VAL_MAX,
        ensures
            final(self).wf(),
            final(self).current_level == level,
            final(self).attack == old(self).attack,
            final(self).release == old(self).release,
            final(self).sample_rate == old(self).sample_rate,
    {
        self.current_level = level;
    }
}

} // verus!
