//! The transient engine: a four-state machine fed one detection level per
//! sample, emitting one multiplicative gain per sample.

use vstd::prelude::*;

verus! {

use crate::fixed::ONE;
use crate::fixed::VAL_MAX;
use crate::fixed::GAIN_MAX;
use crate::fixed::SAMPLE_MAX;
use crate::fixed::spec_coeff_from_time;
use crate::fixed::spec_corr_factor;
use crate::fixed::corr_factor;
use crate::fixed::spec_from_db;
use crate::fixed::from_db_q;
use crate::fixed::spec_pow_q;
use crate::fixed::pow_q;
use crate::fixed::div_q;
use crate::fixed::mul_q;
use crate::beat::BeatDetector;
use crate::dezipper::Dezipper;
use crate::envelope::EnvelopeDetector;

/// The discrete mode of the engine.  Disabled is entered only when the
/// enable control is off; it forces unity gain and suppresses onsets.
#[derive(Clone, Copy, PartialEq, Eq, Structural, Debug)]
pub enum State {
    Attack,
    Release,
    Idle,
    Disabled,
}

/// Attack boost bound: 30 dB in Q24.
pub const BOOST_MAX: i64 = 503316480;

/// Output gain floor: -60 dB in Q24.
pub const OUTGAIN_MIN: i64 = -1006632960;

/// Output gain ceiling: 6 dB in Q24.
pub const OUTGAIN_MAX: i64 = 100663296;

/// Attack smoothing floor: 0.1 ms in Q24 seconds.
pub const ATTACK_SMOOTH_MIN: u64 = 1678;

/// Attack smoothing ceiling: 50 ms in Q24 seconds.
pub const ATTACK_SMOOTH_MAX: u64 = 838861;

/// Sustain smoothing floor: 1 ms in Q24 seconds.
pub const SUSTAIN_SMOOTH_MIN: u64 = 16777;

/// Sustain smoothing ceiling: 200 ms in Q24 seconds.
pub const SUSTAIN_SMOOTH_MAX: u64 = 3355443;

/// The beat detector's fixed release time constant: 200 ms in Q24 seconds.
pub const BEAT_RELEASE_TIME: u64 = 3355443;

/// 10 ms in Q24 seconds: the release-fast follower's attack time.
pub const TIME_10MS: u64 = 167772;

/// 20 ms in Q24 seconds: the shared fast time constant of the edge and
/// tail followers.
pub const TIME_20MS: u64 = 335544;

/// 25 ms in Q24 seconds: the release-slow follower's release time.
pub const TIME_25MS: u64 = 419430;

/// 5 s in Q24 seconds: the attack-slow follower's release time.
pub const TIME_5S: u64 = 83886080;

/// Clamps a signed Q24 value into [lo, hi].
pub open spec fn spec_clamp_i(v: i64, lo: i64, hi: i64) -> i64 {
    if v < lo {
        lo
    } else if v > hi {
        hi
    } else {
        v
    }
}

/// Clamps a signed Q24 value into [lo, hi].
pub fn clamp_i(v: i64, lo: i64, hi: i64) -> (r: i64)
    requires
        lo <= hi,
    ensures
        r == spec_clamp_i(v, lo, hi),
        lo <= r <= hi,
{
    if v < lo {
        lo
    } else if v > hi {
        hi
    } else {
        v
    }
}

/// The per-block control values, already clamped to their working ranges.
pub struct ControlParams {
    /// Engine enable; off forces Disabled and a dry mix.
    pub enabled: bool,
    /// Detection source: the sidechain signal instead of the input maximum.
    pub use_sidechain: bool,
    /// Attack boost in Q24 dB, within ±30 dB.
    pub attack_boost: i64,
    /// Attack smoothing time constant, Q24 seconds in [0.1 ms, 50 ms].
    pub attack_smooth: u64,
    /// Sustain boost in Q24 dB, within ±30 dB.
    pub sustain_boost: i64,
    /// Sustain smoothing time constant, Q24 seconds in [1 ms, 200 ms].
    pub sustain_smooth: u64,
    /// Output gain in Q24 dB, within [-60 dB, 6 dB].
    pub outgain: i64,
    /// Dry/wet mix in Q24, within [0, 1].
    pub mix: u64,
}

impl ControlParams {
    /// Every control value sits inside its working range.
    pub open spec fn valid(self) -> bool {
        &&& -BOOST_MAX <= self.attack_boost <= BOOST_MAX
        &&& ATTACK_SMOOTH_MIN <= self.attack_smooth <= ATTACK_SMOOTH_MAX
        &&& -BOOST_MAX <= self.sustain_boost <= BOOST_MAX
        &&& SUSTAIN_SMOOTH_MIN <= self.sustain_smooth <= SUSTAIN_SMOOTH_MAX
        &&& OUTGAIN_MIN <= self.outgain <= OUTGAIN_MAX
        &&& self.mix <= ONE
    }

    /// Builds a parameter block from raw Q24 control values, silently
    /// clamping each out-of-range value to its nearest bound.
    pub fn clamped(
        enabled: bool,
        use_sidechain: bool,
        attack_boost: i64,
        attack_smooth: i64,
        sustain_boost: i64,
        sustain_smooth: i64,
        outgain: i64,
        mix: i64,
    ) -> (r: ControlParams)
        ensures
            r.valid(),
            r.enabled == enabled,
            r.use_sidechain == use_sidechain,
            r.attack_boost == spec_clamp_i(attack_boost, (-BOOST_MAX) as i64, BOOST_MAX),
            r.attack_smooth == spec_clamp_i(
                attack_smooth,
                ATTACK_SMOOTH_MIN as i64,
                ATTACK_SMOOTH_MAX as i64,
            ),
            r.sustain_boost == spec_clamp_i(sustain_boost, (-BOOST_MAX) as i64, BOOST_MAX),
            r.sustain_smooth == spec_clamp_i(
                sustain_smooth,
                SUSTAIN_SMOOTH_MIN as i64,
                SUSTAIN_SMOOTH_MAX as i64,
            ),
            r.outgain == spec_clamp_i(outgain, OUTGAIN_MIN, OUTGAIN_MAX),
            r.mix == spec_clamp_i(mix, 0, ONE as i64),
    {
        ControlParams {
            enabled,
            use_sidechain,
            attack_boost: clamp_i(attack_boost, -BOOST_MAX, BOOST_MAX),
            attack_smooth: clamp_i(
                attack_smooth,
                ATTACK_SMOOTH_MIN as i64,
                ATTACK_SMOOTH_MAX as i64,
            ) as u64,
            sustain_boost: clamp_i(sustain_boost, -BOOST_MAX, BOOST_MAX),
            sustain_smooth: clamp_i(
                sustain_smooth,
                SUSTAIN_SMOOTH_MIN as i64,
                SUSTAIN_SMOOTH_MAX as i64,
            ) as u64,
            outgain: clamp_i(outgain, OUTGAIN_MIN, OUTGAIN_MAX),
            mix: clamp_i(mix, 0, ONE as i64) as u64,
        }
    }
}

/// The whole stateful processor: one beat detector, six envelope
/// followers, four parameter dezippers, and the state machine.
pub struct Envolvigo {
    /// Sample rate, Hz.
    pub sample_rate: u32,
    /// Onset detector on the detection level.
    pub beat_detector: BeatDetector,
    /// Smoother of the attack-phase pre-gain; instantaneous attack.
    pub attack_smooth: EnvelopeDetector,
    /// Smoother of the release-phase pre-gain and the idle unity ramp.
    pub sustain_smooth: EnvelopeDetector,
    /// Slow follower of the rising edge.
    pub attack_slow: EnvelopeDetector,
    /// Fast (instantaneous-rise) follower of the rising edge.
    pub attack_fast: EnvelopeDetector,
    /// Slow follower of the decaying tail.
    pub release_slow: EnvelopeDetector,
    /// Fast follower of the decaying tail.
    pub release_fast: EnvelopeDetector,
    /// Dezipper of the attack-boost amount (Q24 dB).
    pub attack_boost: Dezipper,
    /// Dezipper of the sustain-boost amount (Q24 dB).
    pub sustain_boost: Dezipper,
    /// Final pass over the emitted gain; its level doubles as the memory
    /// of the last gain, which re-seeds the attack smoother at an onset.
    pub result_gain: EnvelopeDetector,
    /// Dezipper of the linear output-gain factor.
    pub outgain: Dezipper,
    /// Dezipper of the dry/wet mix.
    pub mix: Dezipper,
    /// The sustain-normalization correction for the current block, Q24.
    pub corr: u64,
    /// The state machine's current mode.
    pub state: State,
    /// Whether a display consumer is attached; without one the engine
    /// skips producing the diagnostic level curves.
    pub ui_active: bool,
    /// Whether the attached consumer has been told the sample rate.
    pub ui_notified: bool,
}

impl Envolvigo {
    /// The engine invariant: every component well-formed, every follower
    /// on the signal path inside the sample range, every smoothed gain
    /// inside the gain range, the final pass an exact passthrough, and
    /// every dezipped parameter inside its control range.
    pub open spec fn wf(self) -> bool {
        &&& 1 <= self.sample_rate <= 192000
        &&& self.beat_detector.wf()
        &&& self.beat_detector.current_level <= SAMPLE_MAX
        &&& self.beat_detector.max_level <= SAMPLE_MAX
        &&& self.attack_smooth.wf()
        &&& self.attack_smooth.sample_rate == self.sample_rate
        &&& self.sustain_smooth.wf()
        &&& self.sustain_smooth.sample_rate == self.sample_rate
        &&& self.attack_slow.wf()
        &&& self.attack_slow.current_level <= SAMPLE_MAX
        &&& self.attack_slow.sample_rate == self.sample_rate
        &&& self.attack_fast.wf()
        &&& self.attack_fast.current_level <= SAMPLE_MAX
        &&& self.attack_fast.sample_rate == self.sample_rate
        &&& self.release_slow.wf()
        &&& self.release_slow.current_level <= SAMPLE_MAX
        &&& self.release_slow.sample_rate == self.sample_rate
        &&& self.release_fast.wf()
        &&& self.release_fast.current_level <= SAMPLE_MAX
        &&& self.release_fast.sample_rate == self.sample_rate
        &&& self.attack_boost.wf()
        &&& -BOOST_MAX <= self.attack_boost.target <= BOOST_MAX
        &&& -BOOST_MAX <= self.attack_boost.current_value <= BOOST_MAX
        &&& self.sustain_boost.wf()
        &&& -BOOST_MAX <= self.sustain_boost.target <= BOOST_MAX
        &&& -BOOST_MAX <= self.sustain_boost.current_value <= BOOST_MAX
        &&& self.result_gain.wf()
        &&& self.result_gain.attack == 0
        &&& self.result_gain.release == 0
        &&& self.outgain.wf()
        &&& 0 <= self.outgain.target <= 2 * (ONE as int)
        &&& 0 <= self.outgain.current_value <= 2 * (ONE as int)
        &&& self.mix.wf()
        &&& 0 <= self.mix.target <= ONE as int
        &&& 0 <= self.mix.current_value <= ONE as int
        &&& self.corr <= 2 * ONE
    }

    /// A fresh engine: everything at rest, state Idle.
    pub fn new(sample_rate: u32) -> (r: Envolvigo)
        requires
            1 <= sample_rate <= 192000,
        ensures
            r.wf(),
            r.state == State::Idle,
            r.sample_rate == sample_rate,
            r.beat_detector.current_level == 0,
            r.beat_detector.max_level == 0,
            r.beat_detector.release == spec_coeff_from_time(sample_rate, BEAT_RELEASE_TIME),
            r.attack_fast.current_level == 0,
            r.attack_slow.current_level == 0,
            r.release_fast.current_level == 0,
            r.release_slow.current_level == 0,
            r.attack_smooth.current_level == 0,
            r.sustain_smooth.current_level == 0,
            r.result_gain.current_level == 0,
            r.attack_boost.current_value == 0,
            r.attack_boost.target == 0,
            r.sustain_boost.current_value == 0,
            r.sustain_boost.target == 0,
            r.mix.current_value == ONE as int,
            r.mix.target == ONE as int,
            r.outgain.current_value == ONE as int,
            r.outgain.target == ONE as int,
            r.corr == ONE,
            !r.ui_active,
            !r.ui_notified,
    {
        Envolvigo {
            sample_rate,
            beat_detector: BeatDetector::new(sample_rate, BEAT_RELEASE_TIME),
            attack_smooth: EnvelopeDetector::new(sample_rate),
            sustain_smooth: EnvelopeDetector::new(sample_rate),
            attack_slow: EnvelopeDetector::new(sample_rate),
            attack_fast: EnvelopeDetector::new(sample_rate),
            release_slow: EnvelopeDetector::new(sample_rate),
            release_fast: EnvelopeDetector::new(sample_rate),
            attack_boost: Dezipper::new(0, sample_rate),
            sustain_boost: Dezipper::new(0, sample_rate),
            result_gain: EnvelopeDetector::new(sample_rate),
            outgain: Dezipper::new(ONE as i64, sample_rate),
            mix: Dezipper::new(ONE as i64, sample_rate),
            corr: ONE,
            state: State::Idle,
            ui_active: false,
            ui_notified: false,
        }
    }

    /// The state the block starts in: disabling forces Disabled; enabling
    /// resumes from Idle, never directly from Attack or Release.
    pub open spec fn spec_block_state(old_state: State, enabled: bool) -> State {
        if enabled {
            if old_state == State::Disabled {
                State::Idle
            } else {
                old_state
            }
        } else {
            State::Disabled
        }
    }

    /// The engine as prepare_block leaves it.
    #[verifier::opaque]
    pub open spec fn spec_prepare(pre: Envolvigo, params: ControlParams) -> Envolvigo {
        Envolvigo {
            attack_fast: EnvelopeDetector {
                attack: spec_coeff_from_time(pre.sample_rate, 0),
                release: spec_coeff_from_time(pre.sample_rate, TIME_20MS),
                ..pre.attack_fast
            },
            attack_slow: EnvelopeDetector {
                attack: spec_coeff_from_time(pre.sample_rate, TIME_20MS),
                release: spec_coeff_from_time(pre.sample_rate, TIME_5S),
                ..pre.attack_slow
            },
            release_fast: EnvelopeDetector {
                attack: spec_coeff_from_time(pre.sample_rate, TIME_10MS),
                release: spec_coeff_from_time(pre.sample_rate, TIME_20MS),
                ..pre.release_fast
            },
            release_slow: EnvelopeDetector {
                attack: spec_coeff_from_time(pre.sample_rate, TIME_20MS),
                release: spec_coeff_from_time(pre.sample_rate, TIME_25MS),
                ..pre.release_slow
            },
            attack_smooth: EnvelopeDetector {
                attack: spec_coeff_from_time(pre.sample_rate, 0),
                release: spec_coeff_from_time(pre.sample_rate, params.attack_smooth),
                ..pre.attack_smooth
            },
            sustain_smooth: EnvelopeDetector {
                attack: spec_coeff_from_time(pre.sample_rate, params.sustain_smooth),
                release: spec_coeff_from_time(pre.sample_rate, params.sustain_smooth),
                ..pre.sustain_smooth
            },
            attack_boost: Dezipper { target: params.attack_boost, ..pre.attack_boost },
            sustain_boost: Dezipper { target: params.sustain_boost, ..pre.sustain_boost },
            outgain: Dezipper { target: spec_from_db(params.outgain) as i64, ..pre.outgain },
            mix: Dezipper {
                target: if params.enabled {
                    params.mix as i64
                } else {
                    0
                },
                ..pre.mix
            },
            corr: spec_corr_factor(params.sustain_smooth),
            state: Self::spec_block_state(pre.state, params.enabled),
            ..pre
        }
    }

    /// Applies a block's control values: refreshes every follower
    /// coefficient, retargets the dezippers, and resolves the enable
    /// control into the block's starting state (a disabled engine also
    /// forces the mix target dry).
    #[verifier::rlimit(100)]
    pub fn prepare_block(&mut self, params: &ControlParams)
        requires
            old(self).wf(),
            params.valid(),
        ensures
            final(self).wf(),
            *final(self) == Self::spec_prepare(*old(self), *params),
            final(self).state == Self::spec_block_state(old(self).state, params.enabled),
            !params.enabled ==> final(self).state == State::Disabled,
            params.enabled && old(self).state == State::Disabled ==> final(self).state
                == State::Idle,
            final(self).attack_fast.attack == spec_coeff_from_time(old(self).sample_rate, 0),
            final(self).attack_fast.release == spec_coeff_from_time(
                old(self).sample_rate,
                TIME_20MS,
            ),
            final(self).attack_slow.attack == spec_coeff_from_time(
                old(self).sample_rate,
                TIME_20MS,
            ),
            final(self).attack_slow.release == spec_coeff_from_time(
                old(self).sample_rate,
                TIME_5S,
            ),
            final(self).release_fast.attack == spec_coeff_from_time(
                old(self).sample_rate,
                TIME_10MS,
            ),
            final(self).release_fast.release == spec_coeff_from_time(
                old(self).sample_rate,
                TIME_20MS,
            ),
            final(self).release_slow.attack == spec_coeff_from_time(
                old(self).sample_rate,
                TIME_20MS,
            ),
            final(self).release_slow.release == spec_coeff_from_time(
                old(self).sample_rate,
                TIME_25MS,
            ),
            final(self).attack_smooth.attack == spec_coeff_from_time(old(self).sample_rate, 0),
            final(self).attack_smooth.release == spec_coeff_from_time(
                old(self).sample_rate,
                params.attack_smooth,
            ),
            final(self).sustain_smooth.attack == spec_coeff_from_time(
                old(self).sample_rate,
                params.sustain_smooth,
            ),
            final(self).sustain_smooth.release == spec_coeff_from_time(
                old(self).sample_rate,
                params.sustain_smooth,
            ),
            final(self).attack_boost.target == params.attack_boost,
            final(self).sustain_boost.target == params.sustain_boost,
            final(self).outgain.target == spec_from_db(params.outgain),
            final(self).mix.target == (if params.enabled {
                params.mix as int
            } else {
                0
            }),
            final(self).corr == spec_corr_factor(params.sustain_smooth),
            final(self).attack_boost.current_value == old(self).attack_boost.current_value,
            final(self).sustain_boost.current_value == old(self).sustain_boost.current_value,
            final(self).outgain.current_value == old(self).outgain.current_value,
            final(self).mix.current_value == old(self).mix.current_value,
            final(self).beat_detector == old(self).beat_detector,
            final(self).result_gain == old(self).result_gain,
            final(self).attack_fast.current_level == old(self).attack_fast.current_level,
            final(self).attack_slow.current_level == old(self).attack_slow.current_level,
            final(self).release_fast.current_level == old(self).release_fast.current_level,
            final(self).release_slow.current_level == old(self).release_slow.current_level,
            final(self).attack_smooth.current_level == old(self).attack_smooth.current_level,
            final(self).sustain_smooth.current_level == old(self).sustain_smooth.current_level,
            final(self).sample_rate == old(self).sample_rate,
            final(self).ui_active == old(self).ui_active,
            final(self).ui_notified == old(self).ui_notified,
    {
        proof {
            reveal(Envolvigo::spec_prepare);
        }
        self.attack_fast.set_params(0, TIME_20MS);
        self.attack_slow.set_params(TIME_20MS, TIME_5S);
        self.release_fast.set_params(TIME_10MS, TIME_20MS);
        self.release_slow.set_params(TIME_20MS, TIME_25MS);
        self.attack_boost.set_value(params.attack_boost);
        self.sustain_boost.set_value(params.sustain_boost);
        self.attack_smooth.set_params(0, params.attack_smooth);
        self.sustain_smooth.set_params(params.sustain_smooth, params.sustain_smooth);
        let mix_target: i64 = if params.enabled {
            if self.state == State::Disabled {
                self.state = State::Idle;
            }
            params.mix as i64
        } else {
            self.state = State::Disabled;
            0
        };
        let og = from_db_q(params.outgain);
        self.outgain.set_value(og as i64);
        self.mix.set_value(mix_target);
        self.corr = corr_factor(params.sustain_smooth);
    }

    /// One Attack sample: advance the edge followers, normalize their
    /// difference by the held onset peak, convert to a linear pre-gain,
    /// smooth it, and raise it to the boost power.  A smoothed pre-gain
    /// below unity means the transient has peaked: hand over to Release,
    /// seeding its followers and the sustain smoother for continuity.
    #[verifier::opaque]
    pub open spec fn spec_attack_phase(e: Envolvigo, lvl: u64, boost: i64) -> (
        Envolvigo,
        u64,
        bool,
    ) {
        let fast = e.attack_fast.spec_step(lvl);
        let slow = e.attack_slow.spec_step(lvl);
        let denom = if e.beat_detector.max_level >= 1 {
            e.beat_detector.max_level
        } else {
            1u64
        };
        let x = if fast >= slow {
            spec_ratio((fast - slow) as u64, denom) as int
        } else {
            -(spec_ratio((slow - fast) as u64, denom) as int)
        };
        let pre_in = spec_from_db(x as i64);
        let pregain = e.attack_smooth.spec_step(pre_in);
        let gain = spec_pow_q(pregain, boost);
        let stepped = Envolvigo {
            attack_fast: EnvelopeDetector { current_level: fast, ..e.attack_fast },
            attack_slow: EnvelopeDetector { current_level: slow, ..e.attack_slow },
            attack_smooth: EnvelopeDetector { current_level: pregain, ..e.attack_smooth },
            ..e
        };
        if pregain < ONE {
            (
                Envolvigo {
                    release_fast: EnvelopeDetector { current_level: slow, ..e.release_fast },
                    release_slow: EnvelopeDetector { current_level: 0, ..e.release_slow },
                    sustain_smooth: EnvelopeDetector {
                        current_level: pregain,
                        ..e.sustain_smooth
                    },
                    state: State::Release,
                    ..stepped
                },
                gain,
                true,
            )
        } else {
            (stepped, gain, false)
        }
    }

    /// One Release sample: advance the tail followers, normalize their
    /// difference by the slow attack level with the empirical correction,
    /// smooth, and raise to the sustain boost power.  A smoothed pre-gain
    /// below unity means the tail has decayed away: fall back to Idle.
    #[verifier::opaque]
    pub open spec fn spec_release_phase(e: Envolvigo, lvl: u64, boost: i64) -> (
        Envolvigo,
        u64,
        bool,
    ) {
        let fast = e.release_fast.spec_step(lvl);
        let slow = e.release_slow.spec_step(lvl);
        let denom = if e.attack_slow.current_level >= 1 {
            e.attack_slow.current_level
        } else {
            1u64
        };
        let mag = if fast >= slow {
            spec_ratio((fast - slow) as u64, denom)
        } else {
            spec_ratio((slow - fast) as u64, denom)
        };
        let scaled = (mag * e.corr) / (ONE as int);
        let x = if fast >= slow {
            scaled
        } else {
            -scaled
        };
        let pre_in = spec_from_db(x as i64);
        let pregain = e.sustain_smooth.spec_step(pre_in);
        let gain = spec_pow_q(pregain, boost);
        let stepped = Envolvigo {
            release_fast: EnvelopeDetector { current_level: fast, ..e.release_fast },
            release_slow: EnvelopeDetector { current_level: slow, ..e.release_slow },
            sustain_smooth: EnvelopeDetector { current_level: pregain, ..e.sustain_smooth },
            ..e
        };
        if pregain < ONE {
            (Envolvigo { state: State::Idle, ..stepped }, gain, true)
        } else {
            (stepped, gain, false)
        }
    }

    /// One Idle or Disabled sample: ramp the sustain smoother toward
    /// unity and emit it, so the next attack re-seeds smoothly.
    #[verifier::opaque]
    pub open spec fn spec_idle_phase(e: Envolvigo) -> (Envolvigo, u64) {
        let g = e.sustain_smooth.spec_step(ONE);
        (
            Envolvigo {
                sustain_smooth: EnvelopeDetector { current_level: g, ..e.sustain_smooth },
                ..e
            },
            g,
        )
    }

    /// The Attack arm of the state machine, exactly as spec_attack_phase
    /// describes it.
    fn attack_phase(&mut self, lvl: u64, boost: i64) -> (r: (u64, bool))
        requires
            old(self).wf(),
            lvl <= SAMPLE_MAX,
            -BOOST_MAX <= boost <= BOOST_MAX,
        ensures
            final(self).wf(),
            *final(self) == Self::spec_attack_phase(*old(self), lvl, boost).0,
            r.0 == Self::spec_attack_phase(*old(self), lvl, boost).1,
            r.1 == Self::spec_attack_phase(*old(self), lvl, boost).2,
            r.0 <= GAIN_MAX,
    {
        proof {
            reveal(Envolvigo::spec_attack_phase);
        }
        let fast = self.attack_fast.process(lvl);
        let slow = self.attack_slow.process(lvl);
        let bmax = self.beat_detector.max_level();
        let denom: u64 = if bmax >= 1 {
            bmax
        } else {
            1
        };
        let x: i64 = if fast >= slow {
            ratio_clamped(fast - slow, denom) as i64
        } else {
            -(ratio_clamped(slow - fast, denom) as i64)
        };
        let pre_in = from_db_q(x);
        let pregain = self.attack_smooth.process(pre_in);
        let gain = pow_q(pregain, boost);
        let entered_release = pregain < ONE;
        if entered_release {
            self.state = State::Release;
            self.release_fast.reset(slow);
            self.release_slow.reset(0);
            self.sustain_smooth.reset(pregain);
        }
        (gain, entered_release)
    }

    /// The Release arm of the state machine, exactly as spec_release_phase
    /// describes it.
    fn release_phase(&mut self, lvl: u64, boost: i64) -> (r: (u64, bool))
        requires
            old(self).wf(),
            lvl <= SAMPLE_MAX,
            -BOOST_MAX <= boost <= BOOST_MAX,
        ensures
            final(self).wf(),
            *final(self) == Self::spec_release_phase(*old(self), lvl, boost).0,
            r.0 == Self::spec_release_phase(*old(self), lvl, boost).1,
            r.1 == Self::spec_release_phase(*old(self), lvl, boost).2,
            r.0 <= GAIN_MAX,
    {
        proof {
            reveal(Envolvigo::spec_release_phase);
        }
        let fast = self.release_fast.process(lvl);
        let slow = self.release_slow.process(lvl);
        let alvl = self.attack_slow.level();
        let denom: u64 = if alvl >= 1 {
            alvl
        } else {
            1
        };
        let mag: u64 = if fast >= slow {
            ratio_clamped(fast - slow, denom)
        } else {
            ratio_clamped(slow - fast, denom)
        };
        proof {
            crate::fixed::lemma_mul_q_bound(mag, self.corr, RATIO_CLAMP, 33554432);
        }
        let scaled: u64 = mul_q(mag, self.corr);
        let x: i64 = if fast >= slow {
            scaled as i64
        } else {
            -(scaled as i64)
        };
        let pre_in = from_db_q(x);
        let pregain = self.sustain_smooth.process(pre_in);
        let gain = pow_q(pregain, boost);
        let entered_idle = pregain < ONE;
        if entered_idle {
            self.state = State::Idle;
        }
        (gain, entered_idle)
    }

    /// The Idle and Disabled arm, exactly as spec_idle_phase describes it.
    fn idle_phase(&mut self) -> (r: u64)
        requires
            old(self).wf(),
        ensures
            final(self).wf(),
            *final(self) == Self::spec_idle_phase(*old(self)).0,
            r == Self::spec_idle_phase(*old(self)).1,
            r <= GAIN_MAX,
    {
        proof {
            reveal(Envolvigo::spec_idle_phase);
        }
        self.sustain_smooth.process(ONE)
    }
}

/// Everything one sample of processing emits besides the engine state.
pub struct StepInfo {
    /// The engine gain for this sample, before output gain and mix, Q24.
    pub gain: u64,
    /// The dezippered output-gain factor for this sample, Q24.
    pub outgain: u64,
    /// The dezippered dry/wet mix for this sample, Q24.
    pub mix: u64,
    /// The composite factor applied to every channel sample: the gain
    /// times the output gain, crossfaded against dry by the mix.
    pub factor: u64,
    /// The state machine entered Attack at this sample.
    pub entered_attack: bool,
    /// The state machine entered Release at this sample.
    pub entered_release: bool,
    /// The state machine entered Idle at this sample.
    pub entered_idle: bool,
}

/// The composite per-sample output factor: `(gain·outgain)·mix + (1-mix)`.
pub open spec fn spec_factor(gain: u64, outgain: u64, mix: u64) -> u64 {
    let total = (gain * outgain) / (ONE as int);
    ((total * mix) / (ONE as int) + (ONE - mix)) as u64
}

impl Envolvigo {
    /// One sample of the whole engine, the state machine of the design:
    /// advance the boost dezippers and the beat detector; a strict rise of
    /// the beat level is an onset, which (outside Disabled) forces Attack,
    /// re-seeding the attack followers from rest and the attack smoother
    /// from the last emitted gain; then the current phase computes its
    /// gain; the result passes through the final smoother and the output
    /// scalers advance.  The returned info carries the per-sample factors
    /// and which transitions fired.
    #[verifier::opaque]
    pub open spec fn spec_step(pre: Envolvigo, lvl: u64) -> (Envolvigo, StepInfo) {
        let ab = pre.attack_boost.spec_step();
        let sb = pre.sustain_boost.spec_step();
        let e0 = Envolvigo {
            attack_boost: Dezipper { current_value: ab, ..pre.attack_boost },
            sustain_boost: Dezipper { current_value: sb, ..pre.sustain_boost },
            ..pre
        };
        let old_beat = e0.beat_detector.current_level;
        let bd = BeatDetector {
            current_level: e0.beat_detector.spec_step_level(lvl),
            max_level: e0.beat_detector.spec_step_max(lvl),
            ..e0.beat_detector
        };
        let onset = bd.current_level > old_beat && e0.state != State::Disabled;
        let fresh_onset = onset && e0.state != State::Attack;
        let e1 = if fresh_onset {
            Envolvigo {
                beat_detector: bd,
                attack_fast: EnvelopeDetector { current_level: 0, ..e0.attack_fast },
                attack_slow: EnvelopeDetector { current_level: 0, ..e0.attack_slow },
                attack_smooth: EnvelopeDetector {
                    current_level: e0.result_gain.current_level,
                    ..e0.attack_smooth
                },
                state: State::Attack,
                ..e0
            }
        } else if onset {
            Envolvigo { beat_detector: bd, state: State::Attack, ..e0 }
        } else {
            Envolvigo { beat_detector: bd, ..e0 }
        };
        let phased = if e1.state == State::Attack {
            Self::spec_attack_phase(e1, lvl, ab)
        } else if e1.state == State::Release {
            Self::spec_release_phase(e1, lvl, sb)
        } else {
            let idle = Self::spec_idle_phase(e1);
            (idle.0, idle.1, false)
        };
        let e2 = phased.0;
        let gain = e2.result_gain.spec_step(phased.1);
        let mixv = e2.mix.spec_step();
        let og = e2.outgain.spec_step();
        let e3 = Envolvigo {
            result_gain: EnvelopeDetector { current_level: gain, ..e2.result_gain },
            mix: Dezipper { current_value: mixv, ..e2.mix },
            outgain: Dezipper { current_value: og, ..e2.outgain },
            ..e2
        };
        let info = StepInfo {
            gain,
            outgain: og as u64,
            mix: mixv as u64,
            factor: spec_factor(gain, og as u64, mixv as u64),
            entered_attack: fresh_onset,
            entered_release: e1.state == State::Attack && phased.2,
            entered_idle: e1.state != State::Attack && e1.state == State::Release && phased.2,
        };
        (e3, info)
    }

    /// Advances the engine one sample on the detection level `lvl` and
    /// returns what it emitted.  Everything the call does is `spec_step`
    /// of the previous state; in particular a Disabled engine stays
    /// Disabled and fires no transition.
    pub fn process_sample(&mut self, lvl: u64) -> (info: StepInfo)
        requires
            old(self).wf(),
            lvl <= SAMPLE_MAX,
        ensures
            final(self).wf(),
            *final(self) == Self::spec_step(*old(self), lvl).0,
            info == Self::spec_step(*old(self), lvl).1,
            info.gain <= GAIN_MAX,
            info.factor <= 8606711808,  // 2^33 + ONE
            old(self).state == State::Disabled ==> final(self).state == State::Disabled
                && !info.entered_attack && !info.entered_release && !info.entered_idle,
    {
        proof {
            reveal(Envolvigo::spec_step);
            reveal(Envolvigo::spec_attack_phase);
            reveal(Envolvigo::spec_release_phase);
            reveal(Envolvigo::spec_idle_phase);
        }
        let ab = self.attack_boost.process();
        let sb = self.sustain_boost.process();
        let old_beat = self.beat_detector.level();
        let beat = self.beat_detector.process(lvl);
        let onset = beat > old_beat && self.state != State::Disabled;
        let mut entered_attack = false;
        if onset {
            if self.state != State::Attack {
                self.attack_fast.reset(0);
                self.attack_slow.reset(0);
                let rg = self.result_gain.level();
                self.attack_smooth.reset(rg);
                entered_attack = true;
            }
            self.state = State::Attack;
        }
        let mut entered_release = false;
        let mut entered_idle = false;
        let gain0: u64;
        if self.state == State::Attack {
            let r = self.attack_phase(lvl, ab);
            gain0 = r.0;
            entered_release = r.1;
        } else if self.state == State::Release {
            let r = self.release_phase(lvl, sb);
            gain0 = r.0;
            entered_idle = r.1;
        } else {
            gain0 = self.idle_phase();
        }
        let gain = self.result_gain.process(gain0);
        let mixv = self.mix.process();
        let og = self.outgain.process();
        proof {
            crate::fixed::lemma_mul_q_bound(gain, og as u64, GAIN_MAX, 33554432);
        }
        let total = mul_q(gain, og as u64);
        proof {
            crate::fixed::lemma_mul_q_bound(total, mixv as u64, 8589934592, ONE);
        }
        let factor = mul_q(total, mixv as u64) + (ONE - (mixv as u64));
        StepInfo {
            gain,
            outgain: og as u64,
            mix: mixv as u64,
            factor,
            entered_attack,
            entered_release,
            entered_idle,
        }
    }
}

/// The magnitude of a sample as an unsigned Q24 value.
pub open spec fn spec_abs_i64(v: i64) -> u64 {
    if v >= 0 {
        v as u64
    } else {
        (-(v as int)) as u64
    }
}

/// The magnitude of a sample.
pub fn abs_i64(v: i64) -> (r: u64)
    requires
        v > i64::MIN,
    ensures
        r == spec_abs_i64(v),
{
    if v >= 0 {
        v as u64
    } else {
        (-v) as u64
    }
}

/// The largest magnitude among the first c channels at sample i.
pub open spec fn spec_max_abs(inputs: Seq<Vec<i64>>, i: int, c: int) -> u64
    decreases c,
{
    if c <= 0 {
        0u64
    } else {
        let rest = spec_max_abs(inputs, i, c - 1);
        let cur = spec_abs_i64(inputs[c - 1]@[i]);
        if cur > rest {
            cur
        } else {
            rest
        }
    }
}

/// The shared detection level of sample i: the sidechain magnitude when
/// selected, otherwise the largest magnitude across all input channels.
pub open spec fn spec_level_at(
    inputs: Seq<Vec<i64>>,
    sidechain: Seq<i64>,
    use_sidechain: bool,
    i: int,
) -> u64 {
    if use_sidechain {
        spec_abs_i64(sidechain[i])
    } else {
        spec_max_abs(inputs, i, inputs.len() as int)
    }
}

/// The detection levels of a whole block.
pub open spec fn spec_levels(
    inputs: Seq<Vec<i64>>,
    sidechain: Seq<i64>,
    use_sidechain: bool,
) -> Seq<u64> {
    Seq::new(inputs[0]@.len(), |i: int| spec_level_at(inputs, sidechain, use_sidechain, i))
}

/// Channel buffers all of one length, every sample within range.
pub open spec fn valid_channels(inputs: Seq<Vec<i64>>) -> bool {
    &&& inputs.len() >= 1
    &&& forall|c: int|
        0 <= c < inputs.len() ==> (#[trigger] inputs[c])@.len() == inputs[0]@.len()
    &&& forall|c: int, i: int|
        0 <= c < inputs.len() && 0 <= i < inputs[c]@.len() ==> -(SAMPLE_MAX as int)
            <= #[trigger] inputs[c]@[i] <= SAMPLE_MAX as int
}

/// One detection level per sample: the magnitude of the sidechain, or the
/// channel maximum of the input magnitudes, exactly as the specification
/// functions state it.
pub fn compute_levels(inputs: &Vec<Vec<i64>>, sidechain: &Vec<i64>, use_sidechain: bool) -> (r:
    Vec<u64>)
    requires
        valid_channels(inputs@),
        use_sidechain ==> sidechain@.len() == inputs@[0]@.len(),
        use_sidechain ==> forall|i: int|
            0 <= i < sidechain@.len() ==> -(SAMPLE_MAX as int) <= #[trigger] sidechain@[i]
                <= SAMPLE_MAX as int,
    ensures
        r@.len() == inputs@[0]@.len(),
        forall|i: int|
            0 <= i < r@.len() ==> r@[i] == spec_level_at(
                inputs@,
                sidechain@,
                use_sidechain,
                i,
            ),
        forall|i: int| 0 <= i < r@.len() ==> r@[i] <= SAMPLE_MAX,
{
    let n = inputs[0].len();
    let mut r: Vec<u64> = Vec::with_capacity(n);
    let mut i: usize = 0;
    while i < n
        invariant
            valid_channels(inputs@),
            use_sidechain ==> sidechain@.len() == inputs@[0]@.len(),
            use_sidechain ==> forall|k: int|
                0 <= k < sidechain@.len() ==> -(SAMPLE_MAX as int) <= #[trigger] sidechain@[k]
                    <= SAMPLE_MAX as int,
            n == inputs@[0]@.len(),
            i <= n,
            r@.len() == i,
            forall|j: int|
                0 <= j < i ==> r@[j] == spec_level_at(inputs@, sidechain@, use_sidechain, j),
            forall|j: int| 0 <= j < i ==> r@[j] <= SAMPLE_MAX,
        decreases n - i,
    {
        let lvl: u64 = if use_sidechain {
            abs_i64(sidechain[i])
        } else {
            let mut m: u64 = 0;
            let mut c: usize = 0;
            while c < inputs.len()
                invariant
                    valid_channels(inputs@),
                    n == inputs@[0]@.len(),
                    i < n,
                    c <= inputs@.len(),
                    m == spec_max_abs(inputs@, i as int, c as int),
                    m <= SAMPLE_MAX,
                decreases inputs@.len() - c,
            {
                let a = abs_i64(inputs[c][i]);
                if a > m {
                    m = a;
                }
                c = c + 1;
            }
            m
        };
        r.push(lvl);
        i = i + 1;
    }
    r
}

/// A channel sample scaled by the composite factor, sign preserved.
pub open spec fn spec_apply(v: i64, factor: u64) -> i64 {
    if v >= 0 {
        (((v as int) * factor) / (ONE as int)) as i64
    } else {
        (-((((-(v as int)) * factor) / (ONE as int)))) as i64
    }
}

/// Scales one channel sample by the composite per-sample factor.  The
/// sign of the sample is preserved and the magnitude is scaled exactly
/// like every other channel's at this sample.
pub fn apply_factor(v: i64, factor: u64) -> (r: i64)
    requires
        -(SAMPLE_MAX as int) <= v <= SAMPLE_MAX as int,
        factor <= 8606711808,
    ensures
        r == spec_apply(v, factor),
        v >= 0 ==> 0 <= r,
        v <= 0 ==> r <= 0,
        spec_abs_i64(r) == (spec_abs_i64(v) * factor) / (ONE as int),
        -34426847232 <= r <= 34426847232,
{
    let mag = abs_i64(v);
    proof {
        crate::fixed::lemma_mul_q_bound(mag, factor, SAMPLE_MAX, 8606711808);
        if mag == 0 {
            assert(mag * factor == 0) by (nonlinear_arith)
                requires mag == 0;
            vstd::arithmetic::div_mod::lemma_div_of0(ONE as int);
        }
    }
    let scaled = (mag * factor) / ONE;
    if v >= 0 {
        scaled as i64
    } else {
        -(scaled as i64)
    }
}

impl Envolvigo {
    /// The state diagram of one sample: Disabled is absorbing; Idle
    /// leaves only through an onset, which forces Attack and can hand
    /// straight on to Release within the same sample; Attack only hands
    /// over to Release; Release falls back to Idle or is cut short by a
    /// fresh onset.
    /// While no Attack entry has fired, a block that started at rest is
    /// still at rest: the state remains Idle or Disabled.
    proof fn lemma_rest_until_attack_entry(pre: Envolvigo, levels: Seq<u64>, i: int)
        requires
            pre.state == State::Idle || pre.state == State::Disabled,
            0 <= i <= levels.len(),
            forall|j: int| 0 <= j < i ==> !Self::spec_info_at(pre, levels, j).entered_attack,
        ensures
            Self::spec_state_at(pre, levels, i).state == State::Idle || Self::spec_state_at(
                pre,
                levels,
                i,
            ).state == State::Disabled,
        decreases i,
    {
        reveal(Envolvigo::spec_step);
        reveal(Envolvigo::spec_idle_phase);
        if i > 0 {
            Self::lemma_rest_until_attack_entry(pre, levels, i - 1);
            assert(!Self::spec_info_at(pre, levels, i - 1).entered_attack);
        }
    }

    /// While no Release entry has fired, a block that did not start in
    /// Release is not in Release.
    proof fn lemma_unreleased_until_release_entry(pre: Envolvigo, levels: Seq<u64>, i: int)
        requires
            pre.state != State::Release,
            0 <= i <= levels.len(),
            forall|j: int|
                0 <= j < i ==> !Self::spec_info_at(pre, levels, j).entered_release,
        ensures
            Self::spec_state_at(pre, levels, i).state != State::Release,
        decreases i,
    {
        reveal(Envolvigo::spec_step);
        reveal(Envolvigo::spec_attack_phase);
        reveal(Envolvigo::spec_idle_phase);
        if i > 0 {
            Self::lemma_unreleased_until_release_entry(pre, levels, i - 1);
            assert(!Self::spec_info_at(pre, levels, i - 1).entered_release);
        }
    }

    /// The transitions of a block that starts at rest come in their
    /// phase order: a Release entry presupposes an Attack entry at or
    /// before it (an onset can hand straight through to Release within
    /// one sample), and an Idle entry presupposes a strictly earlier
    /// Release entry.
    pub proof fn lemma_transition_order(pre: Envolvigo, levels: Seq<u64>, i: int)
        requires
            pre.state == State::Idle || pre.state == State::Disabled,
            0 <= i < levels.len(),
        ensures
            Self::spec_info_at(pre, levels, i).entered_release ==> exists|j: int|
                0 <= j <= i && Self::spec_info_at(pre, levels, j).entered_attack,
            Self::spec_info_at(pre, levels, i).entered_idle ==> exists|j: int|
                0 <= j < i && Self::spec_info_at(pre, levels, j).entered_release,
    {
        reveal(Envolvigo::spec_step);
        reveal(Envolvigo::spec_attack_phase);
        reveal(Envolvigo::spec_release_phase);
        reveal(Envolvigo::spec_idle_phase);
        if Self::spec_info_at(pre, levels, i).entered_release {
            if !(exists|j: int| 0 <= j < i && Self::spec_info_at(
                pre,
                levels,
                j,
            ).entered_attack) {
                Self::lemma_rest_until_attack_entry(pre, levels, i);
                assert(Self::spec_info_at(pre, levels, i).entered_attack);
            }
        }
        if Self::spec_info_at(pre, levels, i).entered_idle {
            if !(exists|j: int| 0 <= j < i && Self::spec_info_at(
                pre,
                levels,
                j,
            ).entered_release) {
                Self::lemma_unreleased_until_release_entry(pre, levels, i);
                assert(false);
            }
        }
    }

    pub proof fn lemma_state_transitions(pre: Envolvigo, lvl: u64)
        ensures
            pre.state == State::Disabled ==> Self::spec_step(pre, lvl).0.state
                == State::Disabled,
            pre.state == State::Idle ==> (Self::spec_step(pre, lvl).0.state == State::Idle
                || Self::spec_step(pre, lvl).0.state == State::Attack
                || Self::spec_step(pre, lvl).0.state == State::Release),
            pre.state == State::Attack ==> (Self::spec_step(pre, lvl).0.state == State::Attack
                || Self::spec_step(pre, lvl).0.state == State::Release),
            pre.state == State::Release ==> (Self::spec_step(pre, lvl).0.state
                == State::Release || Self::spec_step(pre, lvl).0.state == State::Idle
                || Self::spec_step(pre, lvl).0.state == State::Attack),
    {
        reveal(Envolvigo::spec_step);
        reveal(Envolvigo::spec_attack_phase);
        reveal(Envolvigo::spec_release_phase);
        reveal(Envolvigo::spec_idle_phase);
    }

    /// Onset detection: a detection level strictly above the beat
    /// detector's trailing level is an onset — outside Disabled it forces
    /// Attack, entering it afresh unless the engine was already attacking;
    /// and without a strict rise no Attack entry ever fires, so an idle
    /// engine stays idle.
    pub proof fn lemma_onset_detection(pre: Envolvigo, lvl: u64)
        requires
            pre.wf(),
            lvl <= SAMPLE_MAX,
        ensures
            lvl > pre.beat_detector.current_level && pre.state != State::Disabled
                && pre.state != State::Attack ==> Self::spec_step(pre, lvl).1.entered_attack,
            lvl <= pre.beat_detector.current_level ==> !Self::spec_step(
                pre,
                lvl,
            ).1.entered_attack,
            pre.state == State::Idle && lvl <= pre.beat_detector.current_level
                ==> Self::spec_step(pre, lvl).0.state == State::Idle,
    {
        reveal(Envolvigo::spec_step);
        reveal(Envolvigo::spec_attack_phase);
        reveal(Envolvigo::spec_release_phase);
        reveal(Envolvigo::spec_idle_phase);
        crate::fixed::lemma_blend_props(
            pre.beat_detector.current_level,
            lvl,
            pre.beat_detector.release,
        );
    }
}

/// A zero sample stays zero under any composite factor: silence in,
/// silence out, whatever the gain curve does.
pub proof fn lemma_apply_silence(factor: u64)
    ensures
        spec_apply(0, factor) == 0,
{
    assert(0 * factor == 0) by (nonlinear_arith);
    vstd::arithmetic::div_mod::lemma_div_of0(ONE as int);
}

/// What one block of processing hands back.
pub struct BlockOutput {
    /// One output buffer per input channel, each the channel scaled by
    /// the per-sample factors.
    pub outputs: Vec<Vec<i64>>,
    /// The gain emitted at each sample, Q24 linear: the diagnostic curve
    /// a display consumer reads.
    pub gains: Vec<u64>,
    /// The first sample at which the engine entered Attack this block.
    pub attack_point: Option<usize>,
    /// The last sample at which the engine entered Release this block.
    pub release_point: Option<usize>,
    /// The last sample at which the engine entered Idle this block.
    pub idle_point: Option<usize>,
}

impl Envolvigo {
    /// The engine state after the first i samples of the level sequence.
    pub open spec fn spec_state_at(pre: Envolvigo, levels: Seq<u64>, i: int) -> Envolvigo
        decreases i,
    {
        if i <= 0 {
            pre
        } else {
            Self::spec_step(Self::spec_state_at(pre, levels, i - 1), levels[i - 1]).0
        }
    }

    /// What sample i emits, given the state the block started in.
    pub open spec fn spec_info_at(pre: Envolvigo, levels: Seq<u64>, i: int) -> StepInfo {
        Self::spec_step(Self::spec_state_at(pre, levels, i), levels[i]).1
    }

    /// Runs the state machine over a block of detection levels, returning
    /// the per-sample gains, the per-sample composite output factors, and
    /// the transition points: the first Attack entry, the last Release
    /// entry and the last Idle entry, or None where none fired.
    pub fn advance_block(&mut self, levels: &Vec<u64>) -> (r: (
        Vec<u64>,
        Vec<u64>,
        Option<usize>,
        Option<usize>,
        Option<usize>,
    ))
        requires
            old(self).wf(),
            forall|i: int| 0 <= i < levels@.len() ==> #[trigger] levels@[i] <= SAMPLE_MAX,
        ensures
            final(self).wf(),
            *final(self) == Self::spec_state_at(*old(self), levels@, levels@.len() as int),
            r.0@.len() == levels@.len(),
            r.1@.len() == levels@.len(),
            forall|i: int|
                0 <= i < levels@.len() ==> r.0@[i] == Self::spec_info_at(
                    *old(self),
                    levels@,
                    i,
                ).gain,
            forall|i: int| 0 <= i < levels@.len() ==> #[trigger] r.0@[i] <= GAIN_MAX,
            forall|i: int|
                0 <= i < levels@.len() ==> r.1@[i] == Self::spec_info_at(
                    *old(self),
                    levels@,
                    i,
                ).factor,
            forall|i: int| 0 <= i < levels@.len() ==> #[trigger] r.1@[i] <= 8606711808,
            r.2 matches Some(k) ==> 0 <= k < levels@.len() && Self::spec_info_at(
                *old(self),
                levels@,
                k as int,
            ).entered_attack && forall|j: int|
                0 <= j < k ==> !Self::spec_info_at(*old(self), levels@, j).entered_attack,
            r.2 is None ==> forall|j: int|
                0 <= j < levels@.len() ==> !Self::spec_info_at(
                    *old(self),
                    levels@,
                    j,
                ).entered_attack,
            r.3 matches Some(k) ==> 0 <= k < levels@.len() && Self::spec_info_at(
                *old(self),
                levels@,
                k as int,
            ).entered_release && forall|j: int|
                k < j < levels@.len() ==> !Self::spec_info_at(
                    *old(self),
                    levels@,
                    j,
                ).entered_release,
            r.3 is None ==> forall|j: int|
                0 <= j < levels@.len() ==> !Self::spec_info_at(
                    *old(self),
                    levels@,
                    j,
                ).entered_release,
            r.4 matches Some(k) ==> 0 <= k < levels@.len() && Self::spec_info_at(
                *old(self),
                levels@,
                k as int,
            ).entered_idle && forall|j: int|
                k < j < levels@.len() ==> !Self::spec_info_at(
                    *old(self),
                    levels@,
                    j,
                ).entered_idle,
            r.4 is None ==> forall|j: int|
                0 <= j < levels@.len() ==> !Self::spec_info_at(
                    *old(self),
                    levels@,
                    j,
                ).entered_idle,
    {
        let ghost pre = *self;
        let n = levels.len();
        let mut gains: Vec<u64> = Vec::with_capacity(n);
        let mut factors: Vec<u64> = Vec::with_capacity(n);
        let mut attack_point: Option<usize> = None;
        let mut release_point: Option<usize> = None;
        let mut idle_point: Option<usize> = None;
        let mut i: usize = 0;
        while i < n
            invariant
                n == levels@.len(),
                i <= n,
                forall|k: int| 0 <= k < n ==> #[trigger] levels@[k] <= SAMPLE_MAX,
                self.wf(),
                *self == Self::spec_state_at(pre, levels@, i as int),
                gains@.len() == i,
                factors@.len() == i,
                forall|j: int|
                    0 <= j < i ==> gains@[j] == Self::spec_info_at(pre, levels@, j).gain,
                forall|j: int| 0 <= j < i ==> #[trigger] gains@[j] <= GAIN_MAX,
                forall|j: int|
                    0 <= j < i ==> factors@[j] == Self::spec_info_at(pre, levels@, j).factor,
                forall|j: int| 0 <= j < i ==> #[trigger] factors@[j] <= 8606711808,
                attack_point matches Some(k) ==> 0 <= k < i && Self::spec_info_at(
                    pre,
                    levels@,
                    k as int,
                ).entered_attack && forall|j: int|
                    0 <= j < k ==> !Self::spec_info_at(pre, levels@, j).entered_attack,
                attack_point is None ==> forall|j: int|
                    0 <= j < i ==> !Self::spec_info_at(pre, levels@, j).entered_attack,
                release_point matches Some(k) ==> 0 <= k < i && Self::spec_info_at(
                    pre,
                    levels@,
                    k as int,
                ).entered_release && forall|j: int|
                    k < j < i ==> !Self::spec_info_at(pre, levels@, j).entered_release,
                release_point is None ==> forall|j: int|
                    0 <= j < i ==> !Self::spec_info_at(pre, levels@, j).entered_release,
                idle_point matches Some(k) ==> 0 <= k < i && Self::spec_info_at(
                    pre,
                    levels@,
                    k as int,
                ).entered_idle && forall|j: int|
                    k < j < i ==> !Self::spec_info_at(pre, levels@, j).entered_idle,
                idle_point is None ==> forall|j: int|
                    0 <= j < i ==> !Self::spec_info_at(pre, levels@, j).entered_idle,
            decreases n - i,
        {
            let info = self.process_sample(levels[i]);
            gains.push(info.gain);
            factors.push(info.factor);
            if info.entered_attack && attack_point.is_none() {
                attack_point = Some(i);
            }
            if info.entered_release {
                release_point = Some(i);
            }
            if info.entered_idle {
                idle_point = Some(i);
            }
            i = i + 1;
        }
        (gains, factors, attack_point, release_point, idle_point)
    }

    /// One block of audio, start to finish: apply the control values,
    /// extract the shared per-sample detection level, run the state
    /// machine over it, and scale every channel sample by that sample's
    /// composite factor — the same factor for every channel, so relative
    /// channel amplitude is preserved exactly.  The returned gains are
    /// the diagnostic gain curve, and the three points mark where the
    /// state machine entered Attack (first), Release and Idle (last).
    pub fn run(&mut self, params: &ControlParams, inputs: &Vec<Vec<i64>>, sidechain: &Vec<
        i64,
    >) -> (out: BlockOutput)
        requires
            old(self).wf(),
            params.valid(),
            valid_channels(inputs@),
            params.use_sidechain ==> sidechain@.len() == inputs@[0]@.len(),
            params.use_sidechain ==> forall|i: int|
                0 <= i < sidechain@.len() ==> -(SAMPLE_MAX as int) <= #[trigger] sidechain@[i]
                    <= SAMPLE_MAX as int,
        ensures
            final(self).wf(),
            *final(self) == Self::spec_state_at(
                Self::spec_prepare(*old(self), *params),
                spec_levels(inputs@, sidechain@, params.use_sidechain),
                inputs@[0]@.len() as int,
            ),
            out.gains@.len() == inputs@[0]@.len(),
            forall|i: int|
                0 <= i < out.gains@.len() ==> out.gains@[i] == Self::spec_info_at(
                    Self::spec_prepare(*old(self), *params),
                    spec_levels(inputs@, sidechain@, params.use_sidechain),
                    i,
                ).gain,
            forall|i: int| 0 <= i < out.gains@.len() ==> #[trigger] out.gains@[i] <= GAIN_MAX,
            out.outputs@.len() == inputs@.len(),
            forall|c: int|
                0 <= c < out.outputs@.len() ==> (#[trigger] out.outputs@[c])@.len()
                    == inputs@[0]@.len(),
            forall|c: int, i: int|
                0 <= c < out.outputs@.len() && 0 <= i < inputs@[0]@.len()
                    ==> #[trigger] out.outputs@[c]@[i] == spec_apply(
                    inputs@[c]@[i],
                    Self::spec_info_at(
                        Self::spec_prepare(*old(self), *params),
                        spec_levels(inputs@, sidechain@, params.use_sidechain),
                        i,
                    ).factor,
                ),
            forall|c: int, i: int|
                0 <= c < out.outputs@.len() && 0 <= i < inputs@[0]@.len() ==> -34426847232
                    <= #[trigger] out.outputs@[c]@[i] <= 34426847232,
            out.attack_point matches Some(k) ==> 0 <= k < inputs@[0]@.len()
                && Self::spec_info_at(
                Self::spec_prepare(*old(self), *params),
                spec_levels(inputs@, sidechain@, params.use_sidechain),
                k as int,
            ).entered_attack && forall|j: int|
                0 <= j < k ==> !Self::spec_info_at(
                    Self::spec_prepare(*old(self), *params),
                    spec_levels(inputs@, sidechain@, params.use_sidechain),
                    j,
                ).entered_attack,
            out.attack_point is None ==> forall|j: int|
                0 <= j < inputs@[0]@.len() ==> !Self::spec_info_at(
                    Self::spec_prepare(*old(self), *params),
                    spec_levels(inputs@, sidechain@, params.use_sidechain),
                    j,
                ).entered_attack,
            out.release_point matches Some(k) ==> 0 <= k < inputs@[0]@.len()
                && Self::spec_info_at(
                Self::spec_prepare(*old(self), *params),
                spec_levels(inputs@, sidechain@, params.use_sidechain),
                k as int,
            ).entered_release && forall|j: int|
                k < j < inputs@[0]@.len() ==> !Self::spec_info_at(
                    Self::spec_prepare(*old(self), *params),
                    spec_levels(inputs@, sidechain@, params.use_sidechain),
                    j,
                ).entered_release,
            out.release_point is None ==> forall|j: int|
                0 <= j < inputs@[0]@.len() ==> !Self::spec_info_at(
                    Self::spec_prepare(*old(self), *params),
                    spec_levels(inputs@, sidechain@, params.use_sidechain),
                    j,
                ).entered_release,
            out.idle_point matches Some(k) ==> 0 <= k < inputs@[0]@.len()
                && Self::spec_info_at(
                Self::spec_prepare(*old(self), *params),
                spec_levels(inputs@, sidechain@, params.use_sidechain),
                k as int,
            ).entered_idle && forall|j: int|
                k < j < inputs@[0]@.len() ==> !Self::spec_info_at(
                    Self::spec_prepare(*old(self), *params),
                    spec_levels(inputs@, sidechain@, params.use_sidechain),
                    j,
                ).entered_idle,
            out.idle_point is None ==> forall|j: int|
                0 <= j < inputs@[0]@.len() ==> !Self::spec_info_at(
                    Self::spec_prepare(*old(self), *params),
                    spec_levels(inputs@, sidechain@, params.use_sidechain),
                    j,
                ).entered_idle,
    {
        self.prepare_block(params);
        let levels = compute_levels(inputs, sidechain, params.use_sidechain);
        proof {
            assert(levels@ =~= spec_levels(inputs@, sidechain@, params.use_sidechain));
        }
        let r = self.advance_block(&levels);
        let gains = r.0;
        let factors = r.1;
        let n = inputs[0].len();
        let mut outputs: Vec<Vec<i64>> = Vec::with_capacity(inputs.len());
        let mut c: usize = 0;
        while c < inputs.len()
            invariant
                valid_channels(inputs@),
                n == inputs@[0]@.len(),
                factors@.len() == n,
                forall|i: int| 0 <= i < n ==> #[trigger] factors@[i] <= 8606711808,
                c <= inputs@.len(),
                outputs@.len() == c,
                forall|b: int|
                    0 <= b < c ==> (#[trigger] outputs@[b])@.len() == n,
                forall|b: int, i: int|
                    0 <= b < c && 0 <= i < n ==> #[trigger] outputs@[b]@[i] == spec_apply(
                        inputs@[b]@[i],
                        factors@[i],
                    ),
                forall|b: int, i: int|
                    0 <= b < c && 0 <= i < n ==> -34426847232 <= #[trigger] outputs@[b]@[i]
                        <= 34426847232,
            decreases inputs@.len() - c,
        {
            let ch = &inputs[c];
            let mut out_ch: Vec<i64> = Vec::with_capacity(n);
            let mut i: usize = 0;
            while i < n
                invariant
                    valid_channels(inputs@),
                    n == inputs@[0]@.len(),
                    c < inputs@.len(),
                    ch == &inputs[c as int],
                    factors@.len() == n,
                    forall|k: int| 0 <= k < n ==> #[trigger] factors@[k] <= 8606711808,
                    i <= n,
                    out_ch@.len() == i,
                    forall|j: int|
                        0 <= j < i ==> #[trigger] out_ch@[j] == spec_apply(
                            inputs@[c as int]@[j],
                            factors@[j],
                        ),
                    forall|j: int|
                        0 <= j < i ==> -34426847232 <= #[trigger] out_ch@[j] <= 34426847232,
                decreases n - i,
            {
                out_ch.push(apply_factor(ch[i], factors[i]));
                i = i + 1;
            }
            outputs.push(out_ch);
            c = c + 1;
        }
        BlockOutput {
            outputs,
            gains,
            attack_point: r.2,
            release_point: r.3,
            idle_point: r.4,
        }
    }
}

impl Envolvigo {
    /// Notes a control event from the display consumer: on activation the
    /// engine starts producing diagnostics and owes the consumer its
    /// configuration once; on deactivation it stops.
    pub fn note_ui_event(&mut self, activated: bool)
        ensures
            final(self).ui_active == activated,
            final(self).ui_notified == (if activated {
                false
            } else {
                old(self).ui_notified
            }),
            *final(self) == (Envolvigo {
                ui_active: final(self).ui_active,
                ui_notified: final(self).ui_notified,
                ..*old(self)
            }),
    {
        if activated {
            self.ui_active = true;
            self.ui_notified = false;
        } else {
            self.ui_active = false;
        }
    }

    /// Records that the attached consumer has been told the configuration.
    pub fn mark_ui_notified(&mut self)
        ensures
            final(self).ui_notified,
            *final(self) == (Envolvigo { ui_notified: true, ..*old(self) }),
    {
        self.ui_notified = true;
    }

    /// Silence keeps the engine idle: from Idle, a run of all-zero levels
    /// never leaves Idle and fires no transition, and once the sustain
    /// smoother rests at unity every emitted gain is exactly one.  (With a
    /// zero input sample, a scaled output sample is zero whatever the
    /// factor, by apply_factor's sign bounds.)
    pub proof fn lemma_silence_stays_idle(pre: Envolvigo, levels: Seq<u64>, i: int)
        requires
            pre.wf(),
            pre.state == State::Idle,
            pre.sustain_smooth.current_level == ONE,
            forall|j: int| 0 <= j < levels.len() ==> levels[j] == 0,
            0 <= i <= levels.len(),
        ensures
            Self::spec_state_at(pre, levels, i).state == State::Idle,
            Self::spec_state_at(pre, levels, i).sustain_smooth == pre.sustain_smooth,
            Self::spec_state_at(pre, levels, i).beat_detector.release
                == pre.beat_detector.release,
            Self::spec_state_at(pre, levels, i).beat_detector.current_level
                <= pre.beat_detector.current_level,
            Self::spec_state_at(pre, levels, i).result_gain.attack == 0,
            Self::spec_state_at(pre, levels, i).result_gain.release == 0,
            i < levels.len() ==> Self::spec_info_at(pre, levels, i).gain == ONE,
            i < levels.len() ==> !Self::spec_info_at(pre, levels, i).entered_attack
                && !Self::spec_info_at(pre, levels, i).entered_release
                && !Self::spec_info_at(pre, levels, i).entered_idle,
        decreases i,
    {
        reveal(Envolvigo::spec_step);
        reveal(Envolvigo::spec_idle_phase);
        reveal(Envolvigo::spec_attack_phase);
        reveal(Envolvigo::spec_release_phase);
        if i > 0 {
            Self::lemma_silence_stays_idle(pre, levels, i - 1);
        }
        let s = Self::spec_state_at(pre, levels, i);
        crate::fixed::lemma_blend_props(s.beat_detector.current_level, 0, pre.beat_detector.release);
        crate::fixed::lemma_blend_props(ONE, ONE, pre.sustain_smooth.attack);
        if i < levels.len() {
            assert(levels[i] == 0);
            let stepped = Self::spec_step(s, 0).0;
            assert(stepped.state == State::Idle);
        }
    }

    /// A disabled engine is inert: from Disabled, any level sequence
    /// leaves the state Disabled and fires no transition, whatever the
    /// input does — onset detection is suppressed.
    pub proof fn lemma_disabled_stays(pre: Envolvigo, levels: Seq<u64>, i: int)
        requires
            pre.state == State::Disabled,
            0 <= i <= levels.len(),
        ensures
            Self::spec_state_at(pre, levels, i).state == State::Disabled,
            i < levels.len() ==> !Self::spec_info_at(pre, levels, i).entered_attack
                && !Self::spec_info_at(pre, levels, i).entered_release
                && !Self::spec_info_at(pre, levels, i).entered_idle,
        decreases i,
    {
        reveal(Envolvigo::spec_step);
        reveal(Envolvigo::spec_idle_phase);
        if i > 0 {
            Self::lemma_disabled_stays(pre, levels, i - 1);
        }
    }

    /// Stereo linking: two channels whose magnitudes agree sample by
    /// sample produce exactly the detection levels of the mono signal of
    /// that shared magnitude, so the engine computes the same gains and
    /// factors for both runs; and at each sample every channel is scaled
    /// by the same factor, sign preserved, by apply_factor's contract.
    pub proof fn lemma_stereo_linked(
        pre: Envolvigo,
        params: ControlParams,
        stereo: Seq<Vec<i64>>,
        mono: Seq<Vec<i64>>,
        sidechain: Seq<i64>,
    )
        requires
            stereo.len() == 2,
            mono.len() == 1,
            stereo[0]@.len() == mono[0]@.len(),
            stereo[1]@.len() == mono[0]@.len(),
            forall|i: int|
                0 <= i < mono[0]@.len() ==> spec_abs_i64(#[trigger] stereo[0]@[i])
                    == spec_abs_i64(mono[0]@[i]),
            forall|i: int|
                0 <= i < mono[0]@.len() ==> spec_abs_i64(#[trigger] stereo[1]@[i])
                    == spec_abs_i64(mono[0]@[i]),
        ensures
            spec_levels(stereo, sidechain, false) == spec_levels(mono, sidechain, false),
            forall|i: int|
                0 <= i < mono[0]@.len() ==> Self::spec_info_at(
                    Self::spec_prepare(pre, params),
                    spec_levels(stereo, sidechain, false),
                    i,
                ) == Self::spec_info_at(
                    Self::spec_prepare(pre, params),
                    spec_levels(mono, sidechain, false),
                    i,
                ),
    {
        assert forall|i: int| 0 <= i < mono[0]@.len() implies spec_level_at(
            stereo,
            sidechain,
            false,
            i,
        ) == spec_level_at(mono, sidechain, false, i) by {
            assert(spec_max_abs(stereo, i, 2) == if spec_abs_i64(stereo[1]@[i]) > spec_max_abs(
                stereo,
                i,
                1,
            ) {
                spec_abs_i64(stereo[1]@[i])
            } else {
                spec_max_abs(stereo, i, 1)
            });
            assert(spec_max_abs(stereo, i, 0) == 0);
            assert(spec_max_abs(mono, i, 0) == 0);
            assert(spec_max_abs(stereo, i, 1) == spec_abs_i64(stereo[0]@[i]));
            assert(spec_max_abs(mono, i, 1) == spec_abs_i64(mono[0]@[i]));
        }
        assert(spec_levels(stereo, sidechain, false) =~= spec_levels(mono, sidechain, false));
    }
}

/// Upper clamp on the normalized transient ratio handed to the decibel
/// conversion: 64.0 in Q24.
pub const RATIO_CLAMP: u64 = 1073741824;

/// The Q24 ratio delta/denom, clamped to RATIO_CLAMP.
pub open spec fn spec_ratio(delta: u64, denom: u64) -> u64 {
    let r = (delta * ONE) / (denom as int);
    if r > RATIO_CLAMP {
        RATIO_CLAMP
    } else {
        r as u64
    }
}

/// The Q24 ratio delta/denom, clamped so a near-zero denominator (silence
/// hit by an instant transient) cannot blow the decibel conversion up.
pub fn ratio_clamped(delta: u64, denom: u64) -> (r: u64)
    requires
        1 <= denom,
        delta <= VAL_MAX,
    ensures
        r == spec_ratio(delta, denom),
        r <= RATIO_CLAMP,
{
    let q = div_q(delta, denom);
    if q > RATIO_CLAMP {
        RATIO_CLAMP
    } else {
        q
    }
}

} // verus!
