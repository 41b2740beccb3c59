//! The first-order sigma-delta quantizer that turns a fractional
//! frame-repeat factor into an integer repeat count per tick.
//!
//! Fractions are carried in thousandths: a sample of `1500` stands
//! for a repeat factor of one and a half.  Feedback and output are
//! the floor of the integrator.

use vstd::prelude::*;
use vstd::arithmetic::div_mod::{lemma_fundamental_div_mod, lemma_fundamental_div_mod_converse,
    lemma_mod_bound};

verus! {

/// `floor(x / 1000)`: division by a positive divisor rounds toward
/// negative infinity.
pub open spec fn floor_milli(x: int) -> int {
    x / 1000
}

/// The largest sample magnitude `put` accepts, in thousandths.
pub open spec fn sd_max_sample() -> int {
    1_000_000_000_000
}

/// The integrator state and output sum after `k` steps of constant
/// input `x`, starting from a fresh quantizer.
pub open spec fn sd_iter(x: int, k: nat) -> (int, int)
    decreases k
{
    if k == 0 {
        (0, 0)
    } else {
        let (integ, sum) = sd_iter(x, (k - 1) as nat);
        let integ2 = integ + x - 1000 * floor_milli(integ);
        (integ2, sum + floor_milli(integ2))
    }
}

/// Flooring leaves a remainder below one whole unit.
pub proof fn lemma_floor_milli_rem(x: int)
    ensures 0 <= x - 1000 * floor_milli(x) < 1000
{
    lemma_fundamental_div_mod(x, 1000);
    lemma_mod_bound(x, 1000);
}

/// After `k` steps of constant input `x`, the input fed in equals the
/// integrator plus what was emitted, minus the last feedback.
pub proof fn lemma_sd_balance(x: int, k: nat)
    ensures ({
        let (integ, sum) = sd_iter(x, k);
        k * x == integ + 1000 * sum - 1000 * floor_milli(integ)
    })
    decreases k
{
    if k == 0 {
    } else {
        lemma_sd_balance(x, (k - 1) as nat);
        let (integ, sum) = sd_iter(x, (k - 1) as nat);
        let integ2 = integ + x - 1000 * floor_milli(integ);
        assert((k - 1) * x + x == k * x) by (nonlinear_arith);
    }
}

/// For a constant input `x`, the emitted total stays within one whole
/// unit of the input total: the running average converges to `x`.
pub proof fn lemma_sd_average(x: int, k: nat)
    ensures ({
        let total = 1000 * sd_iter(x, k).1;
        0 <= k * x - total < 1000
    })
{
    lemma_sd_balance(x, k);
    let (integ, sum) = sd_iter(x, k);
    lemma_floor_milli_rem(integ);
}

/// For a whole-number input, every step emits exactly that number.
pub proof fn lemma_sd_whole(x: int, k: nat)
    requires x % 1000 == 0
    ensures k >= 1 ==> ({
        let (integ, sum) = sd_iter(x, k);
        &&& integ == x
        &&& floor_milli(integ) * 1000 == x
        &&& sum == (k as int) * floor_milli(x)
    })
    decreases k
{
    if k >= 1 {
        lemma_sd_whole(x, (k - 1) as nat);
        assert(floor_milli(x) * 1000 == x) by {
            lemma_fundamental_div_mod(x, 1000);
        }
        assert(floor_milli(0) == 0);
        if k == 1 {
            assert(sd_iter(x, 0nat) == (0int, 0int));
            assert(sd_iter(x, 1) == (0 + x - 1000 * floor_milli(0),
                0 + floor_milli(0 + x - 1000 * floor_milli(0))));
            assert(1 * floor_milli(x) == floor_milli(x)) by (nonlinear_arith);
        } else {
            let (integ, sum) = sd_iter(x, (k - 1) as nat);
            assert(integ == x);
            assert(integ + x - 1000 * floor_milli(integ) == x);
            assert((k - 1) * floor_milli(x) + floor_milli(x) == k * floor_milli(x))
                by (nonlinear_arith);
        }
    }
}

/// A first-order noise-shaping integrator: each `put` adds the sample
/// minus the previous output, and emits the floor of the integrator.
pub struct SigmaDelta {
    integrator: i64,
}

impl SigmaDelta {
    /// The integrator, in thousandths.
    pub closed spec fn integ(&self) -> int {
        self.integrator as int
    }

    pub closed spec fn wf(&self) -> bool {
        -2 * sd_max_sample() < self.integrator < 2 * sd_max_sample()
    }

    pub fn new() -> (r: Self)
        ensures r.wf(), r.integ() == 0
    {
        SigmaDelta { integrator: 0 }
    }

    /// Feed one sample, in thousandths; the result is the new whole
    /// repeat count.
    pub fn put(&mut self, sample_milli: i64) -> (r: i64)
        requires
            old(self).wf(),
            -sd_max_sample() <= sample_milli <= sd_max_sample(),
        ensures
            final(self).wf(),
            final(self).integ() == old(self).integ() + sample_milli
                - 1000 * floor_milli(old(self).integ()),
            r == floor_milli(final(self).integ()),
    {
        proof {
            lemma_floor_milli_rem(self.integrator as int);
        }
        let feedback = Self::div_floor_1000(self.integrator);
        self.integrator = self.integrator + sample_milli - 1000 * feedback;
        proof {
            lemma_floor_milli_rem(self.integrator as int);
        }
        Self::div_floor_1000(self.integrator)
    }

    /// `floor(x / 1000)`.
    fn div_floor_1000(x: i64) -> (r: i64)
        ensures r == floor_milli(x as int)
    {
        if x >= 0 {
            ((x as u64) / 1000) as i64
        } else {
            let m = (-(x as i128)) as u64;
            let c = (m + 999) / 1000;
            proof {
                let mi = m as int;
                let ci = c as int;
                assert(ci == (mi + 999) / 1000);
                lemma_fundamental_div_mod(mi + 999, 1000);
                lemma_mod_bound(mi + 999, 1000);
                assert(ci * 1000 <= mi + 999);
                assert(mi + 999 < ci * 1000 + 1000);
                assert(0 <= ci * 1000 - mi < 1000);
                lemma_fundamental_div_mod_converse(x as int, 1000, -ci,
                    ci * 1000 - mi);
            }
            -(c as i64)
        }
    }
}

} // verus!
