//! Exact values of the fixed-point formula layer.

use envolvigo::fixed::ONE;
use envolvigo::fixed::GAIN_MAX;
use envolvigo::fixed::DB_FLOOR;
use envolvigo::fixed::exp2_scaled;
use envolvigo::fixed::from_db_q;
use envolvigo::fixed::to_db_q;
use envolvigo::fixed::log2_q24;
use envolvigo::fixed::pow_q;
use envolvigo::fixed::coeff_from_time;
use envolvigo::fixed::dezipper_coeff;
use envolvigo::fixed::corr_factor;
use envolvigo::fixed::blend;
use envolvigo::fixed::blend_i;
use envolvigo::fixed::mul_q;
use envolvigo::fixed::div_q;

#[test]
fn exp2_of_zero_is_one() {
    assert_eq!(exp2_scaled(0), ONE);
}

#[test]
fn exp2_of_whole_steps() {
    assert_eq!(exp2_scaled(ONE as i64), 2 * ONE);
    assert_eq!(exp2_scaled(3 * ONE as i64), 8 * ONE);
    assert_eq!(exp2_scaled(-(ONE as i64)), ONE / 2);
    assert_eq!(exp2_scaled(-3 * ONE as i64), ONE / 8);
}

#[test]
fn exp2_saturates() {
    assert_eq!(exp2_scaled(40 * ONE as i64), GAIN_MAX);
    assert_eq!(exp2_scaled(-40 * ONE as i64), 0);
}

#[test]
fn db_zero_is_unity() {
    assert_eq!(from_db_q(0), ONE);
}

#[test]
fn db_conversions_match_reference_values() {
    // 6 dB is a factor just under 2.0
    assert_eq!(from_db_q(6 * ONE as i64), 33471029);
    // -60 dB is a factor of about 1/1000
    assert_eq!(from_db_q(-60 * ONE as i64), 16778);
    // 20 dB is a factor of 10
    assert_eq!(from_db_q(20 * ONE as i64), 167769392);
}

#[test]
fn log2_exact_at_powers_of_two() {
    assert_eq!(log2_q24(ONE), 0);
    assert_eq!(log2_q24(2 * ONE), ONE as i64);
    assert_eq!(log2_q24(ONE / 4), -2 * ONE as i64);
}

#[test]
fn log2_of_three() {
    // log2(3) = 1.5849625; sixteen fractional bits
    assert_eq!(log2_q24(3 * ONE), 26591232);
}

#[test]
fn to_db_matches_reference_values() {
    assert_eq!(to_db_q(ONE), 0);
    // 2.0 is 20*log10(2) = 6.0206 dB
    assert_eq!(to_db_q(2 * ONE), 101008905);
    assert_eq!(to_db_q(0), DB_FLOOR);
}

#[test]
fn pow_squares_two_exactly() {
    // 2^2 == 4
    assert_eq!(pow_q(2 * ONE, 2 * ONE as i64), 4 * ONE);
}

#[test]
fn pow_with_unit_base_or_zero_exponent() {
    assert_eq!(pow_q(ONE, 123456), ONE);
    assert_eq!(pow_q(3 * ONE, 0), ONE);
}

#[test]
fn follower_coefficients_match_reference_values() {
    // exp(-1/(48000*0.02)) = 0.99895...
    assert_eq!(coeff_from_time(48000, 335544), 16759749);
    // a five-second time constant keeps almost everything
    assert_eq!(coeff_from_time(48000, 83886080), 16777147);
    // a 0.1 ms time constant drops most of it
    assert_eq!(coeff_from_time(48000, 1678), 13622821);
    // a zero time constant is instantaneous
    assert_eq!(coeff_from_time(48000, 0), 0);
}

#[test]
fn dezipper_coefficient_matches_reference_value() {
    // exp(-2*pi*25/48000) = 0.996733...
    assert_eq!(dezipper_coeff(48000), 16722403);
}

#[test]
fn correction_factor_matches_reference_values() {
    // (15 + 3*log10(0.05))/7 = 1.5852
    assert_eq!(corr_factor(838861), 26596461);
    // (15 + 3*log10(0.001))/7 = 0.8571
    assert_eq!(corr_factor(16777), 14380427);
}

#[test]
fn blend_moves_between_and_sticks_at_equality() {
    let a = coeff_from_time(48000, 335544);
    assert_eq!(blend(0, ONE, a), 17467);
    assert_eq!(blend(ONE, ONE, a), ONE);
    let r = blend(ONE, 0, a);
    assert!(r < ONE);
    assert_eq!(blend_i(-(ONE as i64), ONE as i64, a), -(ONE as i64) + 2 * 17467);
}

#[test]
fn q24_product_and_quotient() {
    assert_eq!(mul_q(3 * ONE, 2 * ONE), 6 * ONE);
    assert_eq!(div_q(6 * ONE, 3 * ONE), 2 * ONE);
    assert_eq!(div_q(1, 3), 5592405);
}
