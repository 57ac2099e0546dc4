//! Parameter smoothing: turns a block-wise step in a control value into a
//! per-sample ramp, so a knob change never produces an audible click.

use vstd::prelude::*;

verus! {

use crate::fixed::ONE;
use crate::fixed::VAL_MAX;
use crate::fixed::spec_blend_i;
use crate::fixed::blend_i;
use crate::fixed::spec_dezipper_coeff;
use crate::fixed::dezipper_coeff;
use crate::fixed::lemma_blend_i_props;

/// A single-pole smoother with a fixed 25 Hz corner.  `set_value` records a
/// new target; every `process` call moves the current value one sample
/// toward it, never past it.
pub struct Dezipper {
    /// The value the smoother is approaching, Q24.
    pub target: i64,
    /// The smoothed value the last `process` call emitted, Q24.
    pub current_value: i64,
    /// Q24 retention factor: the fraction of the distance to the target
    /// that remains after one sample.
    pub coeff: u64,
}

impl Dezipper {
    /// Well-formed: the retention factor is strictly below one and both
    /// values are in the Q24 working range.
    pub open spec fn wf(self) -> bool {
        &&& self.coeff < ONE
        &&& -(VAL_MAX as int) <= self.target <= VAL_MAX as int
        &&& -(VAL_MAX as int) <= self.current_value <= VAL_MAX as int
    }

    /// The value `process` will move to.
    pub open spec fn spec_step(self) -> i64 {
        spec_blend_i(self.current_value, self.target, self.coeff)
    }

    /// A smoother resting at `start_value`, with its corner fixed at 25 Hz
    /// of the given sample rate.
    pub fn new(start_value: i64, sample_rate: u32) -> (r: Dezipper)
        requires
            1 <= sample_rate <= 192000,
            -(VAL_MAX as int) <= start_value <= VAL_MAX as int,
        ensures
            r.wf(),
            r.target == start_value,
            r.current_value == start_value,
            r.coeff == spec_dezipper_coeff(sample_rate),
    {
        Dezipper {
            target: start_value,
            current_value: start_value,
            coeff: dezipper_coeff(sample_rate),
        }
    }

    /// Records a new target without disturbing the current value.
    pub fn set_value(&mut self, v: i64)
        requires
            old(self).wf(),
            -(VAL_MAX as int) <= v <= VAL_MAX as int,
        ensures
            final(self).wf(),
            final(self).target == v,
            final(self).current_value == old(self).current_value,
            final(self).coeff == old(self).coeff,
    {
        self.target = v;
    }

    /// Advances one sample toward the target and returns the new value.
    /// The result never overshoots the target and, while the two differ,
    /// moves strictly closer every call.
    pub fn process(&mut self) -> (r: i64)
        requires
            old(self).wf(),
        ensures
            final(self).wf(),
            r == final(self).current_value,
            final(self).target == old(self).target,
            final(self).coeff == old(self).coeff,
            final(self).current_value == old(self).spec_step(),
            old(self).current_value <= old(self).target ==> old(self).current_value <= r
                <= old(self).target,
            old(self).target <= old(self).current_value ==> old(self).target <= r <= old(
                self,
            ).current_value,
            old(self).current_value < old(self).target ==> old(self).current_value < r,
            old(self).target < old(self).current_value ==> r < old(self).current_value,
            old(self).current_value == old(self).target ==> r == old(self).target,
    {
        proof {
            lemma_blend_i_props(self.current_value, self.target, self.coeff);
        }
        self.current_value = blend_i(self.current_value, self.target, self.coeff);
        self.current_value
    }

    /// The smoother after `n` process calls with an untouched target.
    pub open spec fn spec_iter(self, n: nat) -> Dezipper
        decreases n,
    {
        if n == 0 {
            self
        } else {
            (Dezipper { current_value: self.spec_step(), ..self }).spec_iter((n - 1) as nat)
        }
    }

    /// Geometric convergence: after n calls the distance to the target has
    /// shrunk at least by the factor (coeff/ONE)^n, so five time constants
    /// of the 25 Hz corner leave well under a hundredth of any starting
    /// distance.
    pub proof fn lemma_geometric_decay(self, n: nat)
        requires
            self.wf(),
        ensures
            self.spec_iter(n).target == self.target,
            vstd::math::abs(self.target - self.spec_iter(n).current_value) * vstd::arithmetic::power::pow(
                ONE as int,
                n,
            ) <= vstd::math::abs(self.target - self.current_value) * vstd::arithmetic::power::pow(
                self.coeff as int,
                n,
            ),
        decreases n,
    {
        if n == 0 {
            vstd::arithmetic::power::lemma_pow0(ONE as int);
            vstd::arithmetic::power::lemma_pow0(self.coeff as int);
        } else {
            lemma_blend_i_props(self.current_value, self.target, self.coeff);
            let stepped = Dezipper { current_value: self.spec_step(), ..self };
            let a = self.coeff as int;
            let dist0 = vstd::math::abs(self.target - self.current_value);
            let dist1 = vstd::math::abs(self.target - stepped.current_value);
            assert(dist1 * (ONE as int) <= a * dist0) by {
                if self.target >= self.current_value {
                    vstd::arithmetic::div_mod::lemma_fundamental_div_mod(
                        a * (self.target - self.current_value),
                        ONE as int,
                    );
                    vstd::arithmetic::div_mod::lemma_mod_division_less_than_divisor(
                        a * (self.target - self.current_value),
                        ONE as int,
                    );
                } else {
                    vstd::arithmetic::div_mod::lemma_fundamental_div_mod(
                        a * (self.current_value - self.target),
                        ONE as int,
                    );
                    vstd::arithmetic::div_mod::lemma_mod_division_less_than_divisor(
                        a * (self.current_value - self.target),
                        ONE as int,
                    );
                }
            }
            stepped.lemma_geometric_decay((n - 1) as nat);
            let dn = vstd::math::abs(self.target - self.spec_iter(n).current_value);
            let pone = vstd::arithmetic::power::pow(ONE as int, (n - 1) as nat);
            let pa = vstd::arithmetic::power::pow(a, (n - 1) as nat);
            vstd::arithmetic::power::lemma_pow_positive(ONE as int, (n - 1) as nat);
            vstd::arithmetic::power::lemma_pow_positive(ONE as int, n);
            vstd::arithmetic::power::lemma_pow1(ONE as int);
            vstd::arithmetic::power::lemma_pow1(a);
            vstd::arithmetic::power::lemma_pow_adds(ONE as int, 1, (n - 1) as nat);
            vstd::arithmetic::power::lemma_pow_adds(a, 1, (n - 1) as nat);
            if self.coeff == 0 {
                assert(stepped.current_value == self.target) by {
                    assert(a * (self.target - self.current_value) == 0) by (nonlinear_arith)
                        requires a == 0;
                    assert(a * (self.current_value - self.target) == 0) by (nonlinear_arith)
                        requires a == 0;
                    vstd::arithmetic::div_mod::lemma_div_of0(ONE as int);
                }
                stepped.lemma_converges((n - 1) as nat);
                assert(dn == 0);
                assert(dn * vstd::arithmetic::power::pow(ONE as int, n) == 0)
                    by (nonlinear_arith)
                    requires dn == 0;
                assert(vstd::arithmetic::power::pow(a, n) == 0) by {
                    assert(a * pa == 0) by (nonlinear_arith)
                        requires a == 0;
                }
                assert(dist0 * vstd::arithmetic::power::pow(a, n) == 0);
            } else {
                vstd::arithmetic::power::lemma_pow_positive(a, (n - 1) as nat);
                // the inherited bound, scaled by ONE
                assert(dn * pone <= dist1 * pa);
                assert(dn * (pone * (ONE as int)) <= (dist1 * (ONE as int)) * pa)
                    by (nonlinear_arith)
                    requires dn * pone <= dist1 * pa, ONE >= 1, dn >= 0, dist1 >= 0, pa >= 0,
                        pone >= 0;
                // the one-step contraction, scaled by the inherited power
                assert((dist1 * (ONE as int)) * pa <= (a * dist0) * pa) by {
                    vstd::arithmetic::mul::lemma_mul_inequality(
                        dist1 * (ONE as int),
                        a * dist0,
                        pa,
                    );
                }
                assert(vstd::arithmetic::power::pow(ONE as int, n) == (ONE as int) * pone);
                assert(vstd::arithmetic::power::pow(a, n) == a * pa);
                assert(dn * ((ONE as int) * pone) == dn * (pone * (ONE as int)))
                    by (nonlinear_arith);
                assert((a * dist0) * pa == dist0 * (a * pa)) by (nonlinear_arith);
            }
        }
    }

    /// Monotone convergence: the distance to the target shrinks by at least
    /// one Q24 unit per call, so after as many calls as the initial
    /// distance the smoother sits exactly on the target, and it stays there.
    pub proof fn lemma_converges(self, n: nat)
        requires
            self.wf(),
            n >= vstd::math::abs(self.target - self.current_value),
        ensures
            self.spec_iter(n).current_value == self.target,
            self.spec_iter(n).target == self.target,
        decreases n,
    {
        if n == 0 {
        } else {
            lemma_blend_i_props(self.current_value, self.target, self.coeff);
            let stepped = Dezipper { current_value: self.spec_step(), ..self };
            stepped.lemma_converges((n - 1) as nat);
        }
    }
}

} // verus!
