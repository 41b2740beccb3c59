//! The two-tap beat predictor: it keeps the last two input beat
//! instants and projects the time until the next beat, with an offset
//! and a power-of-two period multiplier.
//!
//! Instants and durations are carried as microseconds; the clock that
//! supplies them lives outside the library.

use vstd::prelude::*;
use vstd::arithmetic::power2::*;

verus! {

/// The effective beat period: the raw period scaled by two to the
/// `exp`: positive exponents stretch it, negative ones shrink it.
pub open spec fn sp_beat_period(p: int, exp: int) -> int {
    if exp >= 0 {
        p * pow2(exp as nat)
    } else {
        p / pow2((-exp) as nat) as int
    }
}

/// The projected time until the next beat, given the kept instants,
/// the period exponent, the current instant and the offset: none
/// without two instants, an increasing pair, a positive scaled period,
/// and a current instant at or past the later one.
pub open spec fn sp_next_beat(beats: Seq<u64>, exp: int, now: int, offset: int)
    -> Option<int>
{
    if beats.len() < 2 {
        None
    } else {
        let t0 = beats[0] as int;
        let t1 = beats[1] as int;
        if t1 <= t0 {
            None
        } else {
            let scaled = sp_beat_period(t1 - t0, exp);
            if scaled <= 0 {
                None
            } else if now + offset < t1 {
                None
            } else {
                Some(scaled - (now + offset - t1) % scaled)
            }
        }
    }
}

/// A bounded queue of at most two beat instants plus a period
/// exponent.
pub struct BeatPredictor {
    input_beats: Vec<u64>,
    multiplier_exp: i32,
}

impl BeatPredictor {
    /// The kept instants, oldest first.
    pub closed spec fn beats(&self) -> Seq<u64> {
        self.input_beats@
    }

    /// The period exponent.
    pub closed spec fn exp(&self) -> int {
        self.multiplier_exp as int
    }

    pub closed spec fn wf(&self) -> bool {
        self.input_beats@.len() <= 2 && -32 <= self.multiplier_exp <= 32
    }

    pub fn new() -> (r: Self)
        ensures r.wf(), r.beats() == Seq::<u64>::empty(), r.exp() == 0
    {
        BeatPredictor { input_beats: Vec::new(), multiplier_exp: 0 }
    }

    /// Record a beat at the given instant, dropping the oldest kept
    /// instant beyond two.
    pub fn put_input_beat(&mut self, now_micros: u64)
        requires old(self).wf()
        ensures
            final(self).wf(),
            final(self).exp() == old(self).exp(),
            final(self).beats() == if old(self).beats().len() < 2 {
                old(self).beats().push(now_micros)
            } else {
                old(self).beats().push(now_micros).skip(1)
            },
    {
        self.input_beats.push(now_micros);
        if self.input_beats.len() > 2 {
            self.input_beats.remove(0);
            proof {
                assert(old(self).beats().push(now_micros).remove(0)
                    =~= old(self).beats().push(now_micros).skip(1));
            }
        }
    }

    /// Set the period exponent, clamped to a sane range.
    pub fn set_multiplier_exp(&mut self, e: i32)
        requires old(self).wf()
        ensures
            final(self).wf(),
            final(self).beats() == old(self).beats(),
            final(self).exp() == if e < -32 { -32int } else if e > 32 { 32int }
                else { e as int },
    {
        self.multiplier_exp = if e < -32 {
            -32
        } else if e > 32 {
            32
        } else {
            e
        };
    }

    /// The time until the next beat at `now_micros` plus
    /// `offset_micros`; a projection larger than fits is saturated.
    pub fn duration_to_next_beat(&self, now_micros: u64, offset_micros: u64)
        -> (r: Option<u64>)
        requires self.wf()
        ensures
            match sp_next_beat(self.beats(), self.exp(), now_micros as int,
                offset_micros as int) {
                None => r is None,
                Some(v) => {
                    &&& r is Some
                    &&& r->0 as int == if v > u64::MAX { u64::MAX as int } else { v }
                },
            },
    {
        if self.input_beats.len() < 2 {
            return None;
        }
        let t0 = self.input_beats[0];
        let t1 = self.input_beats[1];
        if t1 <= t0 {
            return None;
        }
        let p = t1 - t0;
        let scaled: u128 = if self.multiplier_exp >= 0 {
            let m = Self::pow2_u64(self.multiplier_exp as usize);
            proof {
                if self.multiplier_exp < 32 {
                    lemma_pow2_strictly_increases(self.multiplier_exp as nat, 32);
                }
                lemma2_to64();
                assert((p as int) * (m as int) <= 0xFFFF_FFFF_FFFF_FFFF * 0x1_0000_0000
                    && (p as int) * (m as int) >= 0)
                    by (nonlinear_arith)
                    requires 0 <= p as int <= 0xFFFF_FFFF_FFFF_FFFF,
                        0 <= m as int <= 0x1_0000_0000,
                ;
            }
            (p as u128) * (m as u128)
        } else {
            let m = Self::pow2_u64((-(self.multiplier_exp as i64)) as usize);
            proof {
                vstd::arithmetic::power2::lemma_pow2_pos((-(self.multiplier_exp as int)) as nat);
            }
            (p as u128) / (m as u128)
        };
        if scaled == 0 {
            return None;
        }
        let at: u128 = now_micros as u128 + offset_micros as u128;
        if at < t1 as u128 {
            return None;
        }
        let elapsed: u128 = at - t1 as u128;
        let to_next: u128 = scaled - elapsed % scaled;
        if to_next > u64::MAX as u128 {
            Some(u64::MAX)
        } else {
            Some(to_next as u64)
        }
    }

    /// `pow2(e)` for `e <= 32`.
    fn pow2_u64(e: usize) -> (r: u64)
        requires e <= 32
        ensures r as nat == pow2(e as nat)
    {
        let mut i: usize = 0;
        let mut acc: u64 = 1;
        proof { lemma2_to64(); }
        while i < e
            invariant i <= e <= 32, acc as nat == pow2(i as nat),
            decreases e - i,
        {
            proof {
                lemma_pow2_unfold((i + 1) as nat);
                lemma_pow2_strictly_increases((i + 1) as nat, 33);
                lemma2_to64();
                lemma2_to64_rest();
            }
            acc = acc * 2;
            i = i + 1;
        }
        acc
    }
}

} // verus!
