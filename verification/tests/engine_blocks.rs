//! Block-level behavior of the transient engine.

use envolvigo::fixed::ONE;
use envolvigo::fixed::GAIN_MAX;
use envolvigo::engine::ControlParams;
use envolvigo::engine::Envolvigo;
use envolvigo::engine::State;

fn default_params() -> ControlParams {
    ControlParams::clamped(
        true,                      // enabled
        false,                     // use_sidechain
        6 * ONE as i64,            // attack boost, dB
        (ONE / 500) as i64,        // attack smoothing, 2 ms
        6 * ONE as i64,            // sustain boost, dB
        (ONE / 1000) as i64,       // sustain smoothing, 1 ms
        0,                         // output gain, dB
        ONE as i64,                // mix: fully wet
    )
}

fn silence(n: usize) -> Vec<Vec<i64>> {
    vec![vec![0i64; n]]
}

/// Settles a fresh engine: a block of silence long enough for the sustain
/// smoother to ramp to exact unity.
fn settled_engine(params: &ControlParams) -> Envolvigo {
    let mut e = Envolvigo::new(48000);
    e.run(params, &silence(4800), &Vec::new());
    e
}

#[test]
fn silent_input_stays_idle_with_unity_gain_and_zero_output() {
    let params = default_params();
    let mut e = settled_engine(&params);
    assert_eq!(e.state, State::Idle);
    let out = e.run(&params, &silence(1024), &Vec::new());
    assert_eq!(e.state, State::Idle);
    assert!(out.attack_point.is_none());
    assert!(out.release_point.is_none());
    assert!(out.idle_point.is_none());
    assert_eq!(out.gains.len(), 1024);
    for g in out.gains.iter() {
        assert_eq!(*g, ONE);
    }
    for ch in out.outputs.iter() {
        for s in ch.iter() {
            assert_eq!(*s, 0);
        }
    }
}

#[test]
fn transient_walks_idle_attack_release_idle_in_order() {
    let params = default_params();
    let mut e = settled_engine(&params);
    // a full-scale hit, a pause, a small rebound, then a long tail of
    // silence: the canonical transient shape for a complete cycle
    let mut samples: Vec<i64> = Vec::new();
    samples.extend(std::iter::repeat(ONE as i64).take(100));
    samples.extend(std::iter::repeat(0i64).take(2600));
    samples.extend(std::iter::repeat((ONE / 6) as i64).take(300));
    samples.extend(std::iter::repeat(0i64).take(12000));
    let inputs = vec![samples];
    let out = e.run(&params, &inputs, &Vec::new());
    let a = out.attack_point.expect("no attack fired");
    let r = out.release_point.expect("no release fired");
    let i = out.idle_point.expect("no idle fired");
    assert_eq!(a, 0);
    assert_eq!(r, 2423);
    assert_eq!(i, 7641);
    assert!(a < r && r < i, "transition points out of order");
    assert_eq!(e.state, State::Idle);
}

#[test]
fn attack_boost_raises_gain_above_unity_at_the_onset() {
    let params = default_params();
    let mut e = settled_engine(&params);
    let mut samples = vec![ONE as i64; 64];
    samples.extend(vec![0i64; 64]);
    let out = e.run(&params, &vec![samples], &Vec::new());
    assert_eq!(out.gains[0], 33464057);  // the boosted onset gain
    assert!(out.gains.iter().any(|g| *g > ONE));
}

#[test]
fn disabling_forces_disabled_state_and_suppresses_transitions() {
    let params = default_params();
    let mut e = settled_engine(&params);
    // drive the engine into Attack with a sustained step
    let out = e.run(&params, &vec![vec![ONE as i64; 256]], &Vec::new());
    assert_eq!(e.state, State::Attack);
    assert_eq!(out.attack_point, Some(0));
    // disable mid-attack: the state is forced to Disabled for the whole
    // block and no transition fires, whatever the input does
    let disabled = ControlParams::clamped(
        false,
        false,
        6 * ONE as i64,
        (ONE / 500) as i64,
        6 * ONE as i64,
        (ONE / 1000) as i64,
        0,
        ONE as i64,
    );
    let out = e.run(&disabled, &vec![vec![ONE as i64; 256]], &Vec::new());
    assert_eq!(e.state, State::Disabled);
    assert!(out.attack_point.is_none());
    assert!(out.release_point.is_none());
    assert!(out.idle_point.is_none());
    // re-enabling resumes from Idle, never directly in Attack or Release
    let out = e.run(&params, &silence(256), &Vec::new());
    assert_eq!(e.state, State::Idle);
    assert!(out.attack_point.is_none());
}

#[test]
fn gains_and_outputs_stay_bounded_for_harsh_input_and_parameters() {
    let params = ControlParams::clamped(
        true,
        false,
        30 * ONE as i64,   // maximum attack boost
        1,                 // clamped up to 0.1 ms
        -30 * ONE as i64,  // maximum sustain cut
        1,                 // clamped up to 1 ms
        6 * ONE as i64,    // maximum output gain
        ONE as i64,
    );
    let mut e = Envolvigo::new(48000);
    // deterministic harsh noise alternating full-scale spikes and silence
    let mut seed: u64 = 0x2545F4914F6CDD1D;
    let mut samples: Vec<i64> = Vec::new();
    for _ in 0..4096 {
        seed = seed.wrapping_mul(6364136223846793005).wrapping_add(1442695040888963407);
        let v = (seed >> 40) as i64 - (1 << 23);  // within ±0.5 full scale
        samples.push(v * 8);  // up to ±4.0, the sample limit
    }
    let out = e.run(&params, &vec![samples], &Vec::new());
    for g in out.gains.iter() {
        assert!(*g <= GAIN_MAX);
    }
    for s in out.outputs[0].iter() {
        assert!(-34426847232 <= *s && *s <= 34426847232);
    }
}

#[test]
fn stereo_with_mirrored_channels_matches_mono_gains_and_preserves_signs() {
    let params = default_params();
    let mut mono = settled_engine(&params);
    let mut stereo = settled_engine(&params);
    let mut m: Vec<i64> = Vec::new();
    m.extend(std::iter::repeat((ONE / 2) as i64).take(200));
    m.extend(std::iter::repeat(0i64).take(800));
    let left = m.clone();
    let right: Vec<i64> = m.iter().map(|v| -v).collect();
    let out_m = mono.run(&params, &vec![m], &Vec::new());
    let out_s = stereo.run(&params, &vec![left, right], &Vec::new());
    assert_eq!(out_m.gains, out_s.gains);
    assert_eq!(out_m.attack_point, out_s.attack_point);
    // both channels carry the same magnitudes with their own signs
    assert_eq!(out_s.outputs.len(), 2);
    for i in 0..1000 {
        assert_eq!(out_s.outputs[0][i], out_m.outputs[0][i]);
        assert_eq!(out_s.outputs[1][i], -out_s.outputs[0][i]);
    }
}

#[test]
fn sidechain_drives_detection_while_outputs_follow_the_input() {
    let params = ControlParams::clamped(
        true,
        true,  // detect on the sidechain
        6 * ONE as i64,
        (ONE / 500) as i64,
        6 * ONE as i64,
        (ONE / 1000) as i64,
        0,
        ONE as i64,
    );
    let mut e = Envolvigo::new(48000);
    e.run(&params, &silence(4800), &vec![0i64; 4800]);
    let sidechain: Vec<i64> = vec![ONE as i64; 256];
    let out = e.run(&params, &silence(256), &sidechain);
    // the sidechain hit is detected even though the input is silent
    assert_eq!(out.attack_point, Some(0));
    for s in out.outputs[0].iter() {
        assert_eq!(*s, 0);
    }
}

#[test]
fn out_of_range_controls_are_clamped_to_their_bounds() {
    let p = ControlParams::clamped(
        true,
        false,
        1000 * ONE as i64,
        -5,
        -1000 * ONE as i64,
        i64::MAX,
        100 * ONE as i64,
        2 * ONE as i64,
    );
    assert_eq!(p.attack_boost, 30 * ONE as i64);
    assert_eq!(p.attack_smooth, 1678);
    assert_eq!(p.sustain_boost, -30 * ONE as i64);
    assert_eq!(p.sustain_smooth, 3355443);
    assert_eq!(p.outgain, 6 * ONE as i64);
    assert_eq!(p.mix, ONE);
}

#[test]
fn empty_block_produces_empty_outputs_and_no_points() {
    let params = default_params();
    let mut e = Envolvigo::new(48000);
    let out = e.run(&params, &vec![Vec::new()], &Vec::new());
    assert_eq!(out.outputs.len(), 1);
    assert!(out.outputs[0].is_empty());
    assert!(out.gains.is_empty());
    assert!(out.attack_point.is_none());
    assert_eq!(e.state, State::Idle);
}

#[test]
fn mix_and_outgain_scale_the_output() {
    // fully dry: the output equals the input exactly once the mix
    // dezipper has settled
    let dry = ControlParams::clamped(
        true,
        false,
        6 * ONE as i64,
        (ONE / 500) as i64,
        6 * ONE as i64,
        (ONE / 1000) as i64,
        0,
        0,  // mix fully dry
    );
    let mut e = Envolvigo::new(48000);
    // long enough for the mix dezipper to reach exactly zero
    e.run(&dry, &silence(4800), &Vec::new());
    e.run(&dry, &silence(4800), &Vec::new());
    let samples: Vec<i64> = (0..256).map(|i| (i * 1000) as i64).collect();
    let out = e.run(&dry, &vec![samples.clone()], &Vec::new());
    for i in 0..256 {
        assert_eq!(out.outputs[0][i], samples[i]);
    }
}

#[test]
fn fresh_engine_starts_at_rest_with_the_fixed_beat_release() {
    let e = Envolvigo::new(48000);
    assert_eq!(e.state, State::Idle);
    // the fixed 200 ms beat-detector release, derived at construction
    assert_eq!(
        e.beat_detector.release,
        envolvigo::fixed::coeff_from_time(48000, envolvigo::engine::BEAT_RELEASE_TIME),
    );
    assert_eq!(e.beat_detector.release, 16775469);
    assert_eq!(e.beat_detector.current_level, 0);
    assert_eq!(e.beat_detector.max_level, 0);
    // every follower starts silent
    assert_eq!(e.attack_fast.current_level, 0);
    assert_eq!(e.attack_slow.current_level, 0);
    assert_eq!(e.release_fast.current_level, 0);
    assert_eq!(e.release_slow.current_level, 0);
    assert_eq!(e.attack_smooth.current_level, 0);
    assert_eq!(e.sustain_smooth.current_level, 0);
    assert_eq!(e.result_gain.current_level, 0);
    // boosts start at 0 dB, output gain and mix at unity
    assert_eq!(e.attack_boost.current_value, 0);
    assert_eq!(e.attack_boost.target, 0);
    assert_eq!(e.sustain_boost.current_value, 0);
    assert_eq!(e.sustain_boost.target, 0);
    assert_eq!(e.outgain.current_value, ONE as i64);
    assert_eq!(e.outgain.target, ONE as i64);
    assert_eq!(e.mix.current_value, ONE as i64);
    assert_eq!(e.mix.target, ONE as i64);
    assert!(!e.ui_active);
    assert!(!e.ui_notified);
}

#[test]
fn ui_events_toggle_diagnostics() {
    let mut e = Envolvigo::new(48000);
    assert!(!e.ui_active);
    e.note_ui_event(true);
    assert!(e.ui_active);
    assert!(!e.ui_notified);
    e.mark_ui_notified();
    assert!(e.ui_notified);
    e.note_ui_event(false);
    assert!(!e.ui_active);
    assert!(e.ui_notified);
}
