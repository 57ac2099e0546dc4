//! Q24 fixed-point arithmetic: the number format of the whole signal path.
//!
//! A value `v` stands for the real number `v / 2^24`.  Signal levels and
//! gains are non-negative `u64` values; decibel amounts and raw samples are
//! `i64` values.  Every operation here floors its result and keeps it inside
//! stated bounds, so nothing in the signal path can overflow.

use vstd::prelude::*;

verus! {

use vstd::arithmetic::div_mod::lemma_fundamental_div_mod_converse;
use vstd::arithmetic::div_mod::lemma_div_is_ordered;
use vstd::arithmetic::div_mod::lemma_div_pos_is_pos;
use vstd::arithmetic::mul::lemma_mul_inequality;
use vstd::arithmetic::power2::pow2;
use vstd::arithmetic::power2::lemma_pow2_unfold;
use vstd::arithmetic::power2::lemma_pow2_strictly_increases;
use vstd::arithmetic::power2::lemma2_to64;

/// The fixed-point unit: 2^24, standing for the real number 1.0.
pub const ONE: u64 = 16777216;

/// Largest value a smoothing element ever holds: 2^32, the real number 256.
pub const VAL_MAX: u64 = 4294967296;

/// Largest gain the engine emits: 256.0 in Q24 (48 dB of boost).
pub const GAIN_MAX: u64 = 4294967296;

/// Largest magnitude of an audio sample or detection level: 4.0 in Q24.
pub const SAMPLE_MAX: u64 = 67108864;

/// `(a * d) / ONE` stays below `d` whenever the factor `a` is below `ONE`.
proof fn lemma_scale_down_strict(a: u64, d: u64)
    requires
        a < ONE,
        1 <= d,
    ensures
        (a * d) / (ONE as int) <= d - 1,
{
    assert(a * d <= (ONE - 1) * d) by {
        lemma_mul_inequality(a as int, ONE - 1, d as int);
    }
    assert((ONE - 1) * d == ONE * (d - 1) + (ONE - d)) by (nonlinear_arith);
    assert(ONE * d - d <= ONE * d - 1);
    assert((ONE * (d - 1) + (ONE - 1)) / (ONE as int) == d - 1) by {
        lemma_fundamental_div_mod_converse(
            ONE * (d - 1) + (ONE - 1),
            ONE as int,
            d - 1,
            ONE - 1,
        );
    }
    assert((a * d) / (ONE as int) <= (ONE * (d - 1) + (ONE - 1)) / (ONE as int)) by {
        lemma_div_is_ordered(a * d, ONE * (d - 1) + (ONE - 1), ONE as int);
    }
}

/// `(a * d) / ONE` never exceeds `d` when the factor `a` is at most `ONE`.
proof fn lemma_scale_down(a: u64, d: u64)
    requires
        a <= ONE,
    ensures
        0 <= (a * d) / (ONE as int) <= d,
{
    if d == 0 {
        assert(a * d == 0) by (nonlinear_arith)
            requires d == 0;
    } else {
        assert(a * d <= ONE * d) by {
            lemma_mul_inequality(a as int, ONE as int, d as int);
        }
        assert((ONE * d) / (ONE as int) == d) by (nonlinear_arith)
            requires ONE * d == (d as int) * (ONE as int);
        lemma_div_is_ordered(a * d, ONE * d, ONE as int);
        assert(a * d >= 0) by (nonlinear_arith);
        vstd::arithmetic::div_mod::lemma_div_pos_is_pos(a * d, ONE as int);
    }
}

/// One step of the one-pole recurrence `y' = x + a (y - x)`: the distance
/// from the input `x` decays by the Q24 factor `a`, floored.
pub open spec fn spec_blend(cur: u64, x: u64, a: u64) -> u64 {
    if x >= cur {
        (x - (a * (x - cur)) / (ONE as int)) as u64
    } else {
        (x + (a * (cur - x)) / (ONE as int)) as u64
    }
}

/// Advances a one-pole smoother one sample: the result lies between the
/// old value and the input, strictly closer to the input unless they met.
pub fn blend(cur: u64, x: u64, a: u64) -> (r: u64)
    requires
        cur <= VAL_MAX,
        x <= VAL_MAX,
        a < ONE,
    ensures
        r == spec_blend(cur, x, a),
        cur <= x ==> cur <= r <= x,
        x <= cur ==> x <= r <= cur,
        r <= VAL_MAX,
        cur == x ==> r == x,
        cur < x ==> cur < r,
        x < cur ==> r < cur,
{
    if x >= cur {
        let d: u64 = x - cur;
        proof {
            lemma_scale_down(a, d);
            if d >= 1 {
                lemma_scale_down_strict(a, d);
            }
        }
        x - (a * d) / ONE
    } else {
        let d: u64 = cur - x;
        proof {
            lemma_scale_down(a, d);
            lemma_scale_down_strict(a, d);
        }
        x + (a * d) / ONE
    }
}

/// The properties of a blend step, available to proofs that unfold the
/// recurrence without running it: the result sits between the old value and
/// the input, strictly closer to the input unless the two already met.
pub proof fn lemma_blend_props(cur: u64, x: u64, a: u64)
    requires
        cur <= VAL_MAX,
        x <= VAL_MAX,
        a < ONE,
    ensures
        cur <= x ==> cur <= spec_blend(cur, x, a) <= x,
        x <= cur ==> x <= spec_blend(cur, x, a) <= cur,
        cur == x ==> spec_blend(cur, x, a) == x,
        cur < x ==> cur < spec_blend(cur, x, a),
        x < cur ==> spec_blend(cur, x, a) < cur,
{
    if x >= cur {
        let d = (x - cur) as u64;
        lemma_scale_down(a, d);
        if d >= 1 {
            lemma_scale_down_strict(a, d);
        }
    } else {
        let d = (cur - x) as u64;
        lemma_scale_down(a, d);
        lemma_scale_down_strict(a, d);
    }
}

/// One step of the one-pole recurrence for signed values, as the parameter
/// dezippers need: the distance from the input decays by the factor `a`.
pub open spec fn spec_blend_i(cur: i64, x: i64, a: u64) -> i64 {
    if x >= cur {
        (x - (a * (x - cur)) / (ONE as int)) as i64
    } else {
        (x + (a * (cur - x)) / (ONE as int)) as i64
    }
}

/// The blend-step properties for signed values.
pub proof fn lemma_blend_i_props(cur: i64, x: i64, a: u64)
    requires
        -(VAL_MAX as int) <= cur <= VAL_MAX as int,
        -(VAL_MAX as int) <= x <= VAL_MAX as int,
        a < ONE,
    ensures
        cur <= x ==> cur <= spec_blend_i(cur, x, a) <= x,
        x <= cur ==> x <= spec_blend_i(cur, x, a) <= cur,
        cur == x ==> spec_blend_i(cur, x, a) == x,
        cur < x ==> cur < spec_blend_i(cur, x, a),
        x < cur ==> spec_blend_i(cur, x, a) < cur,
{
    if x >= cur {
        let d = (x - cur) as u64;
        lemma_scale_down(a, d);
        if d >= 1 {
            lemma_scale_down_strict(a, d);
        }
        assert(a * (x - cur) == a * d);
    } else {
        let d = (cur - x) as u64;
        lemma_scale_down(a, d);
        lemma_scale_down_strict(a, d);
        assert(a * (cur - x) == a * d);
    }
}

/// Advances a one-pole smoother over signed values one sample.
pub fn blend_i(cur: i64, x: i64, a: u64) -> (r: i64)
    requires
        -(VAL_MAX as int) <= cur <= VAL_MAX as int,
        -(VAL_MAX as int) <= x <= VAL_MAX as int,
        a < ONE,
    ensures
        r == spec_blend_i(cur, x, a),
        cur <= x ==> cur <= r <= x,
        x <= cur ==> x <= r <= cur,
        -(VAL_MAX as int) <= r <= VAL_MAX as int,
{
    proof {
        lemma_blend_i_props(cur, x, a);
    }
    if x >= cur {
        let d: u64 = (x - cur) as u64;
        proof {
            lemma_scale_down(a, d);
            assert(a * (x - cur) == a * d);
        }
        cur + ((d - (a * d) / ONE) as i64)
    } else {
        let d: u64 = (cur - x) as u64;
        proof {
            lemma_scale_down(a, d);
            assert(a * (cur - x) == a * d);
        }
        cur - ((d - (a * d) / ONE) as i64)
    }
}

/// 2^k as a machine word.
pub fn pow2_u64(k: u64) -> (r: u64)
    requires
        k <= 63,
    ensures
        r == pow2(k as nat),
        r >= 1,
{
    let mut r: u64 = 1;
    let mut i: u64 = 0;
    proof {
        vstd::arithmetic::power2::lemma_pow2(0);
        vstd::arithmetic::power::lemma_pow0(2);
    }
    while i < k
        invariant
            i <= k,
            k <= 63,
            r == pow2(i as nat),
        decreases k - i,
    {
        proof {
            lemma_pow2_unfold((i + 1) as nat);
            lemma_pow2_strictly_increases((i + 1) as nat, 64);
            lemma2_to64();
        }
        r = r * 2;
        i = i + 1;
    }
    proof {
        vstd::arithmetic::power2::lemma_pow2_pos(k as nat);
    }
    r
}

/// First cubic coefficient of the 2^x approximation on [0, 1), in Q24.
pub const EXP2_C1: u64 = 11667364;

/// Second cubic coefficient of the 2^x approximation on [0, 1), in Q24.
pub const EXP2_C2: u64 = 3807486;

/// Third cubic coefficient of the 2^x approximation on [0, 1), in Q24.
pub const EXP2_C3: u64 = 1298177;

/// 2^(f / ONE) for a fractional exponent, as the cubic Horner form
/// `1 + f (c1 + f (c2 + f c3))` evaluated in floored Q24 steps.
#[verifier::opaque]
pub open spec fn spec_exp2_frac(f: u64) -> int {
    ONE + (f * (EXP2_C1 + (f * (EXP2_C2 + (f * EXP2_C3) / (ONE as int))) / (ONE as int)))
        / (ONE as int)
}

/// 2^(f / ONE) for f in [0, ONE): a Q24 value in [1.0, 2.0).
pub fn exp2_frac(f: u64) -> (r: u64)
    requires
        f < ONE,
    ensures
        r == spec_exp2_frac(f),
        ONE <= r < 2 * ONE,
        f == 0 ==> r == ONE,
{
    proof {
        reveal(spec_exp2_frac);
        lemma_scale_down(f, EXP2_C3);
    }
    let t3: u64 = (f * EXP2_C3) / ONE;
    proof {
        lemma_scale_down(f, (EXP2_C2 + t3) as u64);
    }
    let t2: u64 = (f * (EXP2_C2 + t3)) / ONE;
    proof {
        lemma_scale_down(f, (EXP2_C1 + t2) as u64);
    }
    let t1: u64 = (f * (EXP2_C1 + t2)) / ONE;
    ONE + t1
}

/// The cubic stays within one binade: 1.0 <= 2^frac < 2.0.
pub proof fn lemma_exp2_frac_bounds(f: u64)
    requires
        f < ONE,
    ensures
        ONE <= spec_exp2_frac(f) < 2 * ONE,
{
    reveal(spec_exp2_frac);
    lemma_scale_down(f, EXP2_C3);
    let t3 = (f * EXP2_C3) / (ONE as int);
    lemma_scale_down(f, (EXP2_C2 + t3) as u64);
    let t2 = (f * ((EXP2_C2 + t3) as u64)) / (ONE as int);
    assert(f * (EXP2_C2 + t3) == f * ((EXP2_C2 + t3) as u64));
    lemma_scale_down(f, (EXP2_C1 + t2) as u64);
    assert(f * (EXP2_C1 + t2) == f * ((EXP2_C1 + t2) as u64));
}

/// 2^(q + f / ONE) in Q24, saturating at GAIN_MAX.
pub open spec fn spec_exp2_pos(q: u64, f: u64) -> u64 {
    if q >= 8 {
        GAIN_MAX
    } else {
        (spec_exp2_frac(f) * pow2(q as nat)) as u64
    }
}

/// 2^(-(m / ONE)) in Q24, flushing to zero below 2^-26.
pub open spec fn spec_exp2_neg(m: u64) -> u64 {
    let qm = m / ONE;
    let rm = m % ONE;
    if qm >= 26 {
        0
    } else if rm == 0 {
        ((ONE as int) / (pow2(qm as nat) as int)) as u64
    } else {
        (spec_exp2_frac((ONE - rm) as u64) / (pow2((qm + 1) as nat) as int)) as u64
    }
}

/// 2^(e / ONE) in Q24 for a signed exponent, clamped to [0, GAIN_MAX].
pub open spec fn spec_exp2(e: i64) -> u64 {
    if e >= 0 {
        spec_exp2_pos((e as u64) / ONE, (e as u64) % ONE)
    } else {
        spec_exp2_neg((-e) as u64)
    }
}

/// 2^(e / ONE) in Q24, the workhorse behind every decibel conversion,
/// power curve and time-constant coefficient.
pub fn exp2_scaled(e: i64) -> (r: u64)
    requires
        -35184372088832 <= e <= 35184372088832,  // |e| <= 2^45: 2 million dB
    ensures
        r == spec_exp2(e),
        r <= GAIN_MAX,
        e == 0 ==> r == ONE,
        e >= 0 ==> r >= ONE,
        e < 0 ==> r < ONE,
{
    proof {
        lemma2_to64();
    }
    if e >= 0 {
        let eu: u64 = e as u64;
        let q: u64 = eu / ONE;
        let f: u64 = eu % ONE;
        if q >= 8 {
            GAIN_MAX
        } else {
            let base = exp2_frac(f);
            let m = pow2_u64(q);
            proof {
                lemma_pow2_strictly_increases(q as nat, 8);
                lemma_mul_inequality(base as int, 2 * ONE - 1, m as int);
                assert((2 * ONE - 1) * m <= (2 * ONE - 1) * 128) by (nonlinear_arith)
                    requires m <= 128, 2 * ONE - 1 >= 0;
                lemma_mul_inequality(ONE as int, base as int, m as int);
                assert(ONE * m >= ONE * 1) by (nonlinear_arith)
                    requires m >= 1, ONE >= 1;
            }
            base * m
        }
    } else {
        let m: u64 = (-e) as u64;
        let qm: u64 = m / ONE;
        let rm: u64 = m % ONE;
        if qm >= 26 {
            0
        } else if rm == 0 {
            proof {
                vstd::arithmetic::div_mod::lemma_fundamental_div_mod(m as int, ONE as int);
                assert(qm >= 1);
                if qm > 1 {
                    lemma_pow2_strictly_increases(1, qm as nat);
                }
                assert(pow2(qm as nat) >= 2);
                vstd::arithmetic::div_mod::lemma_div_is_ordered_by_denominator(
                    ONE as int,
                    2,
                    pow2(qm as nat) as int,
                );
            }
            ONE / pow2_u64(qm)
        } else {
            let base = exp2_frac(ONE - rm);
            let d = pow2_u64(qm + 1);
            proof {
                assert(m > 0);
                assert(qm >= 1 || rm >= 1);
                lemma_pow2_unfold((qm + 1) as nat);
                assert(pow2((qm + 1) as nat) >= 2) by {
                    lemma_pow2_strictly_increases(0, (qm + 1) as nat);
                    vstd::arithmetic::power2::lemma_pow2(0);
                    vstd::arithmetic::power::lemma_pow0(2);
                }
                lemma_div_is_ordered(base as int, 2 * ONE - 1, d as int);
                assert((2 * ONE - 1) / (d as int) <= (2 * ONE - 1) / 2) by {
                    vstd::arithmetic::div_mod::lemma_div_is_ordered_by_denominator(
                        2 * ONE - 1,
                        2,
                        d as int,
                    );
                }
            }
            base / d
        }
    }
}

/// The index of the highest set bit: floor(log2 v).
pub open spec fn spec_ilog2(v: u64) -> nat
    decreases v,
{
    if v < 2 {
        0
    } else {
        1 + spec_ilog2(v / 2)
    }
}

/// floor(log2 v) brackets v between two adjacent powers of two.
pub proof fn lemma_ilog2_bounds(v: u64)
    requires
        v >= 1,
    ensures
        pow2(spec_ilog2(v)) <= v < pow2(spec_ilog2(v) + 1),
        spec_ilog2(v) <= 63,
    decreases v,
{
    lemma2_to64();
    if v < 2 {
        assert(pow2(0) == 1 && pow2(1) == 2);
    } else {
        lemma_ilog2_bounds(v / 2);
        let k = spec_ilog2(v / 2);
        lemma_pow2_unfold((k + 1) as nat);
        lemma_pow2_unfold((k + 2) as nat);
        assert(v / 2 >= pow2(k));
        assert(v >= 2 * (v / 2));
        assert(v < 2 * (v / 2) + 2);
        if spec_ilog2(v) + 1 > 64 {
            lemma_pow2_strictly_increases(64, spec_ilog2(v));
        }
    }
}

/// The binary-digit recurrence for the fractional part of log2 m, in which
/// the mantissa is squared k times and each overflow past 2.0 yields a bit.
pub open spec fn spec_log2_bits(m: u64, k: nat) -> int
    decreases k,
{
    if k == 0 {
        0
    } else {
        let s = (m * m) / (ONE as int);
        if s >= 2 * ONE {
            pow2((k - 1) as nat) + spec_log2_bits((s / 2) as u64, (k - 1) as nat)
        } else {
            spec_log2_bits(s as u64, (k - 1) as nat)
        }
    }
}

/// k binary digits of the fractional part of log2(m / ONE).
pub fn log2_bits(m: u64, k: u64) -> (r: u64)
    requires
        ONE <= m < 2 * ONE,
        k <= 24,
    ensures
        r == spec_log2_bits(m, k as nat),
        r < pow2(k as nat),
        m == ONE ==> r == 0,
    decreases k,
{
    proof {
        lemma2_to64();
    }
    if k == 0 {
        0
    } else {
        proof {
            if m == ONE {
                assert((ONE * (ONE as int)) / (ONE as int) == ONE) by (nonlinear_arith)
                    requires ONE > 0;
            }
            lemma_mul_inequality(ONE as int, m as int, m as int);
            assert(ONE * m >= ONE * ONE) by (nonlinear_arith)
                requires m >= ONE, ONE >= 0;
            assert((ONE * (ONE as int)) / (ONE as int) == ONE) by (nonlinear_arith)
                requires ONE > 0;
            lemma_div_is_ordered(ONE * (ONE as int), m * m, ONE as int);
            lemma_mul_inequality(m as int, 2 * ONE - 1, m as int);
            lemma_mul_inequality(m as int, m as int, 2 * ONE - 1);
            assert((2 * ONE - 1) * (2 * (ONE as int) - 1) < 4 * ONE * ONE) by (nonlinear_arith)
                requires ONE >= 1;
            assert((m * m) / (ONE as int) < 4 * ONE) by {
                assert(m * m <= 4 * ONE * ONE - 1) by (nonlinear_arith)
                    requires m <= 2 * ONE - 1, m >= 0, ONE >= 1;
                assert((4 * (ONE as int) * ONE - 1) / (ONE as int) == 4 * ONE - 1) by {
                    lemma_fundamental_div_mod_converse(
                        4 * (ONE as int) * ONE - 1,
                        ONE as int,
                        4 * ONE - 1,
                        ONE - 1,
                    );
                }
                lemma_div_is_ordered(m * m, 4 * (ONE as int) * ONE - 1, ONE as int);
            }
        }
        let s: u64 = (m * m) / ONE;
        if s >= 2 * ONE {
            let low = log2_bits(s / 2, k - 1);
            let bit = pow2_u64(k - 1);
            proof {
                lemma_pow2_unfold(k as nat);
            }
            bit + low
        } else {
            let r = log2_bits(s, k - 1);
            proof {
                lemma_pow2_strictly_increases((k - 1) as nat, k as nat);
            }
            r
        }
    }
}

/// log2(v / ONE) in Q24: the integer part from the leading bit, sixteen
/// fractional bits from the squaring recurrence.
#[verifier::opaque]
pub open spec fn spec_log2(v: u64) -> int {
    let k = spec_ilog2(v);
    let m = if k >= 24 {
        (v / (pow2((k - 24) as nat) as u64)) as u64
    } else {
        (v * pow2((24 - k) as nat)) as u64
    };
    (k as int - 24) * (ONE as int) + spec_log2_bits(m, 16) * 256
}

/// log2 in Q24 of a positive Q24 value up to 2^16.
pub fn log2_q24(v: u64) -> (r: i64)
    requires
        1 <= v <= 1099511627776,  // 2^40
    ensures
        r == spec_log2(v),
        -24 * (ONE as int) <= r < 17 * (ONE as int),
        (spec_ilog2(v) as int - 24) * (ONE as int) <= r < (spec_ilog2(v) as int - 23) * (
        ONE as int),
        v == ONE ==> r == 0,
{
    proof {
        reveal(spec_log2);
        lemma2_to64();
        vstd::arithmetic::power2::lemma2_to64_rest();
        lemma_ilog2_bounds(v);
        if spec_ilog2(v) > 40 {
            lemma_pow2_strictly_increases(40, spec_ilog2(v));
            assert(false);
        }
    }
    let mut p: u64 = v;
    let mut k: u64 = 0;
    while p >= 2
        invariant
            p >= 1,
            spec_ilog2(v) == k + spec_ilog2(p),
            spec_ilog2(v) <= 40,
            p <= v,
        decreases p,
    {
        proof {
            assert(spec_ilog2(p) == 1 + spec_ilog2(p / 2));
            lemma_ilog2_bounds(p);
        }
        p = p / 2;
        k = k + 1;
    }
    proof {
        assert(spec_ilog2(p) == 0);
        assert(k == spec_ilog2(v));
        lemma_ilog2_bounds(v);
        if v == ONE {
            assert(pow2(24) == ONE);
            if k < 24 {
                if k + 1 < 24 {
                    lemma_pow2_strictly_increases((k + 1) as nat, 24);
                }
                assert(false);
            }
            if k > 24 {
                lemma_pow2_strictly_increases(24, k as nat);
                assert(false);
            }
        }
    }
    let m: u64 = if k >= 24 {
        let d = pow2_u64(k - 24);
        proof {
            lemma_mantissa_div_range(v, k, d);
        }
        v / d
    } else {
        let f = pow2_u64(24 - k);
        proof {
            lemma_mantissa_mul_range(v, k, f);
        }
        v * f
    };
    let frac = log2_bits(m, 16);
    proof {
        assert(pow2(16) == 65536);
        assert(k <= 40);
        assert(frac < 65536);
        assert(ONE == 16777216);
        assert((k as int - 24) * (ONE as int) + 16777216 == (k as int - 23) * (ONE as int))
            by (nonlinear_arith)
            requires ONE == 16777216;
    }
    (k as i64 - 24) * 16777216i64 + (frac as i64) * 256
}

/// Dividing out the extra bits of a wide value leaves a Q24 mantissa in [1, 2).
proof fn lemma_mantissa_div_range(v: u64, k: u64, d: u64)
    requires
        v >= 1,
        k == spec_ilog2(v),
        24 <= k <= 63,
        d == pow2((k - 24) as nat),
    ensures
        ONE <= v / d < 2 * ONE,
        v / d == (v / (pow2((k - 24) as nat) as u64)) as u64,
{
    lemma_ilog2_bounds(v);
    lemma2_to64();
    vstd::arithmetic::power2::lemma_pow2_adds((k - 24) as nat, 24);
    vstd::arithmetic::power2::lemma_pow2_adds((k - 24) as nat, 25);
    vstd::arithmetic::power2::lemma_pow2_pos((k - 24) as nat);
    // lower: v >= pow2(k) == d * 2^24, so v / d >= 2^24
    assert(pow2(k as nat) == d * pow2(24));
    assert((v as int) / (d as int) >= (d * pow2(24)) as int / (d as int)) by {
        lemma_div_is_ordered((d * pow2(24)) as int, v as int, d as int);
    }
    assert((d * pow2(24)) as int / (d as int) == pow2(24)) by (nonlinear_arith)
        requires d >= 1;
    // upper: v <= pow2(k+1) - 1 == d * 2^25 - 1
    assert(pow2((k + 1) as nat) == d * pow2(25)) by {
        vstd::arithmetic::power2::lemma_pow2_adds((k - 24) as nat, 25);
    }
    assert(v <= d * pow2(25) - 1);
    assert((d * (pow2(25) as int) - 1) / (d as int) <= pow2(25) - 1) by {
        lemma_fundamental_div_mod_converse(
            d * (pow2(25) as int) - 1,
            d as int,
            pow2(25) - 1,
            d - 1,
        );
    }
    lemma_div_is_ordered(v as int, d * (pow2(25) as int) - 1, d as int);
    assert(pow2(24) == ONE && pow2(25) == 2 * ONE);
}

/// Scaling a narrow value up by the missing bits gives a Q24 mantissa in [1, 2).
proof fn lemma_mantissa_mul_range(v: u64, k: u64, f: u64)
    requires
        v >= 1,
        k == spec_ilog2(v),
        k < 24,
        f == pow2((24 - k) as nat),
    ensures
        ONE <= v * f < 2 * ONE,
        v * f == (v * pow2((24 - k) as nat)) as u64,
{
    lemma_ilog2_bounds(v);
    lemma2_to64();
    vstd::arithmetic::power2::lemma_pow2_adds(k as nat, (24 - k) as nat);
    vstd::arithmetic::power2::lemma_pow2_adds((k + 1) as nat, (24 - k) as nat);
    vstd::arithmetic::power2::lemma_pow2_pos((24 - k) as nat);
    assert(pow2(24) == pow2(k as nat) * f);
    assert(v * f >= pow2(k as nat) * f) by {
        lemma_mul_inequality(pow2(k as nat) as int, v as int, f as int);
    }
    assert(v * f <= (pow2((k + 1) as nat) - 1) * f) by {
        lemma_mul_inequality(v as int, pow2((k + 1) as nat) - 1, f as int);
    }
    assert((pow2((k + 1) as nat) - 1) * f == pow2((k + 1) as nat) * f - f) by (nonlinear_arith);
    assert(pow2((k + 1) as nat) * f == pow2(25)) by {
        vstd::arithmetic::power2::lemma_pow2_adds((k + 1) as nat, (24 - k) as nat);
        assert((k + 1) + (24 - k) == 25);
    }
    assert(pow2(24) == ONE && pow2(25) == 2 * ONE);
}

/// Q24 product: `a * b / ONE`, floored.
pub fn mul_q(a: u64, b: u64) -> (r: u64)
    requires
        a * b <= u64::MAX,
    ensures
        r == (a * b) / (ONE as int),
{
    (a * b) / ONE
}

/// Q24 quotient: `num * ONE / den`, floored.
pub fn div_q(num: u64, den: u64) -> (r: u64)
    requires
        1 <= den,
        num <= 549755813888,  // 2^39
    ensures
        r == (num * (ONE as int)) / (den as int),
{
    (num * ONE) / den
}

/// Bounds a Q24 product by the product of the factors' bounds.
pub proof fn lemma_mul_q_bound(a: u64, b: u64, ca: u64, cb: u64)
    requires
        a <= ca,
        b <= cb,
        ca * cb <= u64::MAX,
    ensures
        a * b <= ca * cb,
        0 <= (a * b) / (ONE as int) <= (ca * cb) as int / (ONE as int),
{
    lemma_mul_inequality(a as int, ca as int, b as int);
    assert(ca * b <= ca * cb) by (nonlinear_arith)
        requires b <= cb, ca >= 0;
    assert(a * b >= 0) by (nonlinear_arith);
    lemma_div_is_ordered(a * b, (ca * cb) as int, ONE as int);
    lemma_div_pos_is_pos(a * b, ONE as int);
}

/// log2(10)/20 in Q24: dB-per-unit converted to a base-2 exponent.
pub const DB_TO_EXP2: u64 = 2786635;

/// The base-2 exponent equivalent to x dB: `x * log2(10)/20`, with the
/// magnitude floored.
pub open spec fn spec_db_exponent(x: i64) -> int {
    if x >= 0 {
        ((x as int) * DB_TO_EXP2) / (ONE as int)
    } else {
        -((-(x as int) * DB_TO_EXP2) / (ONE as int))
    }
}

/// 10^(x/20) in Q24: the linear amplitude of x dB, clamped to GAIN_MAX.
pub open spec fn spec_from_db(x: i64) -> u64 {
    spec_exp2(spec_db_exponent(x) as i64)
}

/// Converts a Q24 decibel amount to a linear Q24 amplitude factor.
pub fn from_db_q(x: i64) -> (r: u64)
    requires
        -17179869184 <= x <= 17179869184,  // |x| <= 1024 dB
    ensures
        r == spec_from_db(x),
        r <= GAIN_MAX,
        x == 0 ==> r == ONE,
        x >= 0 ==> r >= ONE,
        x <= 0 ==> r <= ONE,
        x <= 100663296 ==> r < 2 * ONE,  // at most 6 dB in: under 2.0 out
{
    if x >= 0 {
        let mag: u64 = x as u64;
        let e: u64 = (mag * DB_TO_EXP2) / ONE;
        proof {
            lemma_mul_inequality(mag as int, 17179869184, DB_TO_EXP2 as int);
            lemma_div_is_ordered(
                mag * DB_TO_EXP2,
                17179869184 * (DB_TO_EXP2 as int),
                ONE as int,
            );
            if x <= 100663296 {
                lemma_mul_inequality(mag as int, 100663296, DB_TO_EXP2 as int);
                lemma_div_is_ordered(
                    mag * DB_TO_EXP2,
                    100663296 * (DB_TO_EXP2 as int),
                    ONE as int,
                );
                assert(e < ONE);
                lemma2_to64();
                vstd::arithmetic::div_mod::lemma_basic_div(e as int, ONE as int);
                vstd::arithmetic::div_mod::lemma_small_mod(e as nat, ONE as nat);
                lemma_exp2_frac_bounds(e);
            }
        }
        exp2_scaled(e as i64)
    } else {
        let mag: u64 = (-x) as u64;
        let e: u64 = (mag * DB_TO_EXP2) / ONE;
        proof {
            lemma_mul_inequality(mag as int, 17179869184, DB_TO_EXP2 as int);
            lemma_div_is_ordered(
                mag * DB_TO_EXP2,
                17179869184 * (DB_TO_EXP2 as int),
                ONE as int,
            );
        }
        let r = exp2_scaled(-(e as i64));
        r
    }
}

/// base^(expo/ONE) for a Q24 base and exponent: 2^((expo * log2 base) / ONE),
/// with the magnitude of the inner product floored.  A zero base yields the
/// limit value: 0 for a positive exponent, 1 for zero, GAIN_MAX for negative.
pub open spec fn spec_pow_q(base: u64, expo: i64) -> u64 {
    if base == 0 {
        if expo > 0 {
            0u64
        } else if expo == 0 {
            ONE
        } else {
            GAIN_MAX
        }
    } else {
        let l = spec_log2(base);
        let m = ((vstd::math::abs(expo as int) * vstd::math::abs(l)) as int) / (ONE as int);
        if (expo >= 0) == (l >= 0) {
            spec_exp2(m as i64)
        } else {
            spec_exp2((-m) as i64)
        }
    }
}

/// Raises a Q24 value to a Q24 power, the shape control behind the boost
/// parameters.  Saturates at GAIN_MAX.
pub fn pow_q(base: u64, expo: i64) -> (r: u64)
    requires
        base <= GAIN_MAX,
        -603979776 <= expo <= 603979776,  // |expo| <= 36.0
    ensures
        r == spec_pow_q(base, expo),
        r <= GAIN_MAX,
        expo == 0 ==> r == ONE,
        base == ONE ==> r == ONE,
{
    if base == 0 {
        if expo > 0 {
            0
        } else if expo == 0 {
            ONE
        } else {
            GAIN_MAX
        }
    } else {
        let l: i64 = log2_q24(base);
        let emag: u64 = if expo >= 0 {
            expo as u64
        } else {
            (-expo) as u64
        };
        let lmag: u64 = if l >= 0 {
            l as u64
        } else {
            (-l) as u64
        };
        proof {
            lemma_mul_inequality(emag as int, 603979776, lmag as int);
            assert(603979776 * (lmag as int) <= 603979776 * (24 * (ONE as int)))
                by (nonlinear_arith)
                requires lmag <= 24 * (ONE as int);
            lemma_div_is_ordered(
                emag * lmag,
                603979776 * 24 * (ONE as int),
                ONE as int,
            );
            assert((603979776int * 24 * (ONE as int)) / (ONE as int) == 603979776int * 24)
                by (nonlinear_arith)
                requires ONE > 0;
        }
        let em: u64 = (emag * lmag) / ONE;
        proof {
            if emag == 0 || lmag == 0 {
                assert(emag * lmag == 0) by (nonlinear_arith)
                    requires emag == 0 || lmag == 0;
                vstd::arithmetic::div_mod::lemma_div_of0(ONE as int);
            }
        }
        let e: i64 = if (expo >= 0) == (l >= 0) {
            em as i64
        } else {
            -(em as i64)
        };
        exp2_scaled(e)
    }
}

/// ln 2 in Q24.
pub const LN2_Q24: u64 = 11629080;

/// (ln 2)^2 / 2 in Q24.
pub const LN2SQ_HALF_Q24: u64 = 4030332;

/// 2^(-(e / ONE)) for a small exponent, by the quadratic series
/// `1 - e·ln2 + e²·ln2²/2`, clamped strictly below one: the accurate path
/// for retention factors close to unity, where the cubic's tail error
/// would swamp the tiny decrement.
pub open spec fn spec_exp2_close(e: u64) -> u64 {
    let lin = (e * LN2_Q24) / (ONE as int);
    let quad = (((e * e) / (ONE as int)) * LN2SQ_HALF_Q24) / (ONE as int);
    let r = ONE - lin + quad;
    if r >= ONE {
        (ONE - 1) as u64
    } else {
        r as u64
    }
}

/// 2^(-(e / ONE)) for an exponent below 1/16, strictly below one.
pub fn exp2_close(e: u64) -> (r: u64)
    requires
        e < 1048576,  // 2^20
    ensures
        r == spec_exp2_close(e),
        r < ONE,
{
    proof {
        lemma_mul_q_bound(e, LN2_Q24, 1048575, LN2_Q24);
        lemma_mul_q_bound(e, e, 1048575, 1048575);
    }
    let lin: u64 = (e * LN2_Q24) / ONE;
    let esq: u64 = (e * e) / ONE;
    proof {
        lemma_mul_q_bound(esq, LN2SQ_HALF_Q24, 65535, LN2SQ_HALF_Q24);
    }
    let quad: u64 = (esq * LN2SQ_HALF_Q24) / ONE;
    let r: u64 = ONE - lin + quad;
    if r >= ONE {
        ONE - 1
    } else {
        r
    }
}

/// log2(e) in Q48: the numerator of the exponent 1/(fs·t) in base 2.
pub const COEFF_EXP_NUM: u64 = 406082553034800;

/// The one-pole retention factor exp(-1/(fs·t)) in Q24; zero when the time
/// constant is zero (an instantaneous follower).
pub open spec fn spec_coeff_from_time(sample_rate: u32, t: u64) -> u64 {
    if t == 0 {
        0u64
    } else {
        let e = (COEFF_EXP_NUM as int) / ((sample_rate as int) * t);
        if e < 1048576 {
            spec_exp2_close(e as u64)
        } else {
            let e2 = if e > 1099511627776 {
                1099511627776
            } else {
                e
            };
            spec_exp2_neg(e2 as u64)
        }
    }
}

/// The retention coefficient of an envelope follower with time constant t
/// seconds (Q24) at the given sample rate.
pub fn coeff_from_time(sample_rate: u32, t: u64) -> (r: u64)
    requires
        1 <= sample_rate <= 192000,
        t <= 100663296,  // 6.0 s
    ensures
        r == spec_coeff_from_time(sample_rate, t),
        r < ONE,
{
    if t == 0 {
        0
    } else {
        proof {
            lemma_mul_inequality(sample_rate as int, 192000, t as int);
            assert(192000 * (t as int) <= 19327352832000) by (nonlinear_arith)
                requires t <= 100663296;
            assert((sample_rate as int) * (t as int) >= 1) by (nonlinear_arith)
                requires sample_rate >= 1, t >= 1;
        }
        let denom: u64 = (sample_rate as u64) * t;
        proof {
            vstd::arithmetic::div_mod::lemma_div_is_ordered_by_denominator(
                COEFF_EXP_NUM as int,
                denom as int,
                19327352832000,
            );
        }
        let e: u64 = COEFF_EXP_NUM / denom;
        if e < 1048576 {
            exp2_close(e)
        } else {
            let e2: u64 = if e > 1099511627776 {
                1099511627776
            } else {
                e
            };
            exp2_scaled(-(e2 as i64))
        }
    }
}

/// 2π·25·log2(e) in Q24: the 25 Hz smoothing corner of the dezippers.
pub const DEZIPPER_EXP_NUM: u64 = 3802019254;

/// The retention factor of a parameter dezipper at the given sample rate.
pub open spec fn spec_dezipper_coeff(sample_rate: u32) -> u64 {
    let e = DEZIPPER_EXP_NUM / (sample_rate as u64);
    if e < 1048576 {
        spec_exp2_close(e)
    } else {
        spec_exp2_neg(e)
    }
}

/// The dezipper retention coefficient: exp(-2π·25/fs) in Q24.
pub fn dezipper_coeff(sample_rate: u32) -> (r: u64)
    requires
        1 <= sample_rate <= 192000,
    ensures
        r == spec_dezipper_coeff(sample_rate),
        r < ONE,
{
    let e: u64 = DEZIPPER_EXP_NUM / (sample_rate as u64);
    proof {
        vstd::arithmetic::div_mod::lemma_div_is_ordered_by_denominator(
            DEZIPPER_EXP_NUM as int,
            sample_rate as int,
            192000,
        );
    }
    if e < 1048576 {
        exp2_close(e)
    } else {
        exp2_scaled(-(e as i64))
    }
}

/// 20·log10(2) in Q24: decibels per binary order of magnitude.
pub const DB_PER_LOG2: u64 = 101008905;

/// The decibel floor reported for a zero magnitude: -160 dB in Q24.
pub const DB_FLOOR: i64 = -2684354560;

/// The level in Q24 dB: `20·log10(v)`, or the -160 dB floor for zero.
pub open spec fn spec_to_db(v: u64) -> int {
    if v == 0 {
        DB_FLOOR as int
    } else {
        let l = spec_log2(v);
        if l >= 0 {
            (l * DB_PER_LOG2) / (ONE as int)
        } else {
            -(((-l) * DB_PER_LOG2) / (ONE as int))
        }
    }
}

/// Converts a non-negative Q24 magnitude to Q24 decibels, flooring a zero
/// magnitude at -160 dB instead of diverging.
pub fn to_db_q(v: u64) -> (r: i64)
    requires
        v <= 1099511627776,  // 2^40
    ensures
        r == spec_to_db(v),
        v == ONE ==> r == 0,
        v == 0 ==> r == DB_FLOOR,
{
    if v == 0 {
        DB_FLOOR
    } else {
        let l = log2_q24(v);
        if l >= 0 {
            let m: u64 = l as u64;
            proof {
                lemma_mul_inequality(m as int, 286331153, DB_PER_LOG2 as int);
                lemma_div_is_ordered(
                    m * DB_PER_LOG2,
                    286331153 * (DB_PER_LOG2 as int),
                    ONE as int,
                );
            }
            ((m * DB_PER_LOG2) / ONE) as i64
        } else {
            let m: u64 = (-l) as u64;
            proof {
                lemma_mul_inequality(m as int, 402653184, DB_PER_LOG2 as int);
                lemma_div_is_ordered(
                    m * DB_PER_LOG2,
                    402653184 * (DB_PER_LOG2 as int),
                    ONE as int,
                );
            }
            -(((m * DB_PER_LOG2) / ONE) as i64)
        }
    }
}

/// log10(2) in Q24.
pub const LOG10_2_Q24: u64 = 5050445;

/// The sustain-normalization correction (15 + 3·log10 t)/7 in Q24, the
/// empirical compensation for the damping the sustain smoother introduces.
pub open spec fn spec_corr_factor(t: u64) -> u64 {
    let neg = -spec_log2(t);
    (((15 * (ONE as int)) - 3 * ((neg * (LOG10_2_Q24 as int)) / (ONE as int))) / 7) as u64
}

/// The release-phase correction factor for a sustain smoothing time of t
/// seconds (Q24, between 1 ms and 200 ms).
pub fn corr_factor(t: u64) -> (r: u64)
    requires
        16777 <= t <= 3355443,  // 0.001 s .. 0.2 s
    ensures
        r == spec_corr_factor(t),
        r <= 2 * ONE,
{
    let l = log2_q24(t);
    proof {
        lemma2_to64();
        lemma_ilog2_bounds(t);
        let k = spec_ilog2(t);
        if k >= 22 {
            if k > 22 {
                lemma_pow2_strictly_increases(22, k as nat);
            }
            assert(false);
        }
        if k < 14 {
            if k + 1 < 14 {
                lemma_pow2_strictly_increases((k + 1) as nat, 14);
            }
            assert(false);
        }
        assert(ONE == 16777216);
        assert(l < (k as int - 23) * 16777216 && (k as int - 24) * 16777216 <= l);
        assert(l <= -2 * (ONE as int) && -10 * (ONE as int) <= l);
    }
    let neg: u64 = (-l) as u64;
    let scaled: u64 = 3 * ((neg * LOG10_2_Q24) / ONE);
    proof {
        lemma_mul_inequality(neg as int, 10 * (ONE as int), LOG10_2_Q24 as int);
        assert((10 * (ONE as int) * (LOG10_2_Q24 as int)) / (ONE as int)
            == 10 * (LOG10_2_Q24 as int)) by (nonlinear_arith)
            requires ONE > 0;
        lemma_div_is_ordered(
            neg * (LOG10_2_Q24 as int),
            10 * (ONE as int) * (LOG10_2_Q24 as int),
            ONE as int,
        );
        lemma_mul_inequality(2 * (ONE as int), neg as int, LOG10_2_Q24 as int);
        assert((2 * (ONE as int) * (LOG10_2_Q24 as int)) / (ONE as int)
            == 2 * (LOG10_2_Q24 as int)) by (nonlinear_arith)
            requires ONE > 0;
        lemma_div_is_ordered(
            2 * (ONE as int) * (LOG10_2_Q24 as int),
            neg * (LOG10_2_Q24 as int),
            ONE as int,
        );
        assert(scaled >= 30302670);
        lemma_div_is_ordered(15 * (ONE as int) - scaled, 221355570, 7);
    }
    (15 * ONE - scaled) / 7
}

} // verus!
