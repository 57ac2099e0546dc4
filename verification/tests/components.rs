//! The three follower components: parameter dezipper, envelope detector,
//! beat detector.

use envolvigo::fixed::ONE;
use envolvigo::dezipper::Dezipper;
use envolvigo::envelope::EnvelopeDetector;
use envolvigo::beat::BeatDetector;

#[test]
fn dezipper_starts_at_rest() {
    let mut d = Dezipper::new(ONE as i64, 48000);
    // without a new target, processing stays put
    for _ in 0..10 {
        assert_eq!(d.process(), ONE as i64);
    }
}

#[test]
fn dezipper_never_overshoots_and_converges_within_five_time_constants() {
    let mut d = Dezipper::new(0, 48000);
    d.set_value(ONE as i64);
    let mut prev: i64 = 0;
    // five time constants of the 25 Hz corner at 48 kHz: 1528 samples
    for _ in 0..1528 {
        let v = d.process();
        assert!(v <= ONE as i64, "overshot the target");
        assert!(v >= prev, "moved away from the target");
        prev = v;
    }
    // within 1% of the target
    assert!((ONE as i64) - prev <= (ONE as i64) / 100);
    assert_eq!(prev, 16664354);
}

#[test]
fn dezipper_reaches_target_exactly_and_stays() {
    let mut d = Dezipper::new(1000, 48000);
    d.set_value(0);
    let mut v: i64 = 1000;
    for _ in 0..2000 {
        v = d.process();
    }
    assert_eq!(v, 0);
    assert_eq!(d.process(), 0);
}

#[test]
fn dezipper_ramps_down_monotonically() {
    let mut d = Dezipper::new(ONE as i64, 48000);
    d.set_value(-(ONE as i64));
    let mut prev = ONE as i64;
    for _ in 0..5000 {
        let v = d.process();
        assert!(v <= prev);
        assert!(v >= -(ONE as i64));
        prev = v;
    }
}

#[test]
fn envelope_idempotent_on_constant_input_after_convergence() {
    let mut e = EnvelopeDetector::new(48000);
    e.set_params(335544, 3355443);  // 20 ms / 200 ms
    e.reset(ONE / 2);
    // converged: repeated calls with the level it already holds do nothing
    for _ in 0..100 {
        assert_eq!(e.process(ONE / 2), ONE / 2);
        assert_eq!(e.level(), ONE / 2);
    }
}

#[test]
fn envelope_rises_with_attack_and_falls_with_release() {
    let mut e = EnvelopeDetector::new(48000);
    e.set_params(335544, 3355443);
    let up = e.process(ONE);
    assert_eq!(up, 17467);  // one 20 ms attack step from silence
    let mut level = up;
    for _ in 0..100 {
        level = e.process(ONE);
    }
    assert!(level > up);
    let down = e.process(0);
    assert!(down < level);
    assert!(down > 0);
}

#[test]
fn envelope_instant_attack_jumps_to_input() {
    let mut e = EnvelopeDetector::new(48000);
    e.set_params(0, 335544);
    assert_eq!(e.process(12345678), 12345678);
}

#[test]
fn envelope_reset_snaps_the_level() {
    let mut e = EnvelopeDetector::new(48000);
    e.set_params(335544, 335544);
    e.reset(424242);
    assert_eq!(e.level(), 424242);
}

#[test]
fn beat_rising_edge_jumps_and_rearms_peak() {
    let mut b = BeatDetector::new(48000, 3355443);
    assert_eq!(b.process(ONE), ONE);
    assert_eq!(b.max_level(), ONE);
    assert_eq!(b.level(), ONE);
}

#[test]
fn beat_decays_and_holds_peak() {
    let mut b = BeatDetector::new(48000, 3355443);
    b.process(ONE);
    let decayed = b.process(0);
    assert_eq!(decayed, 16775469);  // one 200 ms release step down from 1.0
    assert_eq!(b.max_level(), ONE);  // the peak holds through the decay
    let lower_peak = b.process(ONE / 2);
    // still below the trailing level: no rearm yet
    assert!(lower_peak < ONE);
    assert_eq!(b.max_level(), ONE);
}

#[test]
fn beat_rearms_on_new_edge_above_trailing_level() {
    let mut b = BeatDetector::new(48000, 3355443);
    b.process(ONE / 4);
    b.process(0);
    b.process(ONE / 2);
    assert_eq!(b.max_level(), ONE / 2);
    assert_eq!(b.level(), ONE / 2);
}
