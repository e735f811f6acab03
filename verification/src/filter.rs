//! The one-pole-cascade low-pass filter that shapes the mixed oscillator
//! output. Its two delay cells persist across calls: the filter is stateful,
//! not a pure function of the current input.

use crate::fx::{
    fp_mul, lemma_fp_blend_bound, lemma_fp_mul_unit_bound, mul_fp, FP_HALF, FP_ONE, TWO_PI_FP,
};
use vstd::arithmetic::div_mod::{lemma_div_is_ordered, lemma_div_pos_is_pos, lemma_multiply_divide_lt};
use vstd::prelude::*;

verus! {

/// The widest sample the filter accepts or holds (Q32): sixteen full-scale
/// units, comfortably above the engine's mixed peak of two and a half.
pub const SAMPLE_CAP: i64 = 16 * FP_ONE;

/// The highest cutoff the filter is driven at (Q32 Hz).
pub const MAX_CUTOFF_FP: i64 = 20000 * FP_ONE;

/// The lowest cutoff the filter is driven at (Q32 Hz).
pub const MIN_CUTOFF_FP: i64 = 20 * FP_ONE;

/// The one-pole coefficient `k = c/(1+c)` in Q32, where
/// `c = 2*pi*cutoff/sample_rate` is the normalized cutoff.
pub open spec fn filter_coeff(cutoff: int, sr: int) -> int {
    let c = fp_mul(TWO_PI_FP as int, cutoff) / sr;
    (c * (FP_ONE as int)) / ((FP_ONE as int) + c)
}

/// A two-stage one-pole cascade low-pass filter. `resonance` is stored but
/// takes no part in the transfer function. Delay cells `y1` and `y2` carry
/// state from sample to sample.
pub struct LowPassFilter {
    pub cutoff: i64,
    pub resonance: i64,
    pub y1: i64,
    pub y2: i64,
}

/// One `process` step: the filter state after the call and the sample it
/// returns. The output blends the input with the first delay cell by the
/// coefficient `k`; the first cell is then re-blended from the output and
/// the second cell, and the second cell remembers the output.
pub open spec fn filter_step(f: LowPassFilter, input: int, sr: int) -> (LowPassFilter, int) {
    let k = filter_coeff(f.cutoff as int, sr);
    let out = fp_mul(input, k) + fp_mul(f.y1 as int, FP_ONE - k);
    let y1n = fp_mul(out, k) + fp_mul(f.y2 as int, FP_ONE - k);
    (LowPassFilter { y1: y1n as i64, y2: out as i64, ..f }, out)
}

/// The coefficient of a well-formed filter lies in `[0, 1)`.
pub proof fn lemma_coeff_range(cutoff: int, sr: int)
    requires
        0 <= cutoff <= MAX_CUTOFF_FP,
        1 <= sr,
    ensures
        0 <= filter_coeff(cutoff, sr) < FP_ONE,
{
    let s: int = FP_ONE as int;
    lemma_div_pos_is_pos((TWO_PI_FP as int) * cutoff, s);
    let cn = fp_mul(TWO_PI_FP as int, cutoff);
    lemma_div_pos_is_pos(cn, sr);
    let c = cn / sr;
    lemma_div_pos_is_pos(c * s, s + c);
    assert(c * s < (s + c) * s) by (nonlinear_arith)
        requires
            0 <= c,
            0 < s,
    ;
    lemma_multiply_divide_lt(c * s, s + c, s);
}

impl LowPassFilter {
    /// Well-formed: cutoff and resonance within their ranges, both delay
    /// cells within the sample cap.
    pub open spec fn inv(self) -> bool {
        &&& 0 <= self.cutoff <= MAX_CUTOFF_FP
        &&& 0 <= self.resonance <= FP_ONE
        &&& -SAMPLE_CAP <= self.y1 <= SAMPLE_CAP
        &&& -SAMPLE_CAP <= self.y2 <= SAMPLE_CAP
    }

    /// A fresh filter: cutoff 1000 Hz, resonance one half, cleared delay
    /// cells.
    pub fn new() -> (f: LowPassFilter)
        ensures
            f.inv(),
            f.cutoff == 1000 * (FP_ONE as int),
            f.resonance == FP_HALF,
            f.y1 == 0,
            f.y2 == 0,
    {
        LowPassFilter { cutoff: 1000 * FP_ONE, resonance: FP_HALF, y1: 0, y2: 0 }
    }

    /// Run one sample through the cascade; the state moves and the output is
    /// exactly per [`filter_step`], and the output honours the sample cap.
    pub fn process(&mut self, input: i64, sample_rate: i64) -> (out: i64)
        requires
            old(self).inv(),
            1 <= sample_rate,
            -SAMPLE_CAP <= input <= SAMPLE_CAP,
        ensures
            final(self).inv(),
            *final(self) == filter_step(*old(self), input as int, sample_rate as int).0,
            out as int == filter_step(*old(self), input as int, sample_rate as int).1,
            -SAMPLE_CAP <= out <= SAMPLE_CAP,
            final(self).cutoff == old(self).cutoff,
            final(self).resonance == old(self).resonance,
    {
        let c_num: i64 = mul_fp(TWO_PI_FP, self.cutoff);
        proof {
            lemma_div_pos_is_pos((TWO_PI_FP as int) * (self.cutoff as int), FP_ONE as int);
            lemma_div_is_ordered(
                (TWO_PI_FP as int) * (self.cutoff as int),
                (TWO_PI_FP as int) * (MAX_CUTOFF_FP as int),
                FP_ONE as int,
            );
        }
        let c: i64 = ((c_num as u64) / (sample_rate as u64)) as i64;
        proof {
            lemma_div_pos_is_pos(c_num as int, sample_rate as int);
            lemma_div_is_ordered(0, c_num as int, sample_rate as int);
            assert((c_num as u64) / (sample_rate as u64) <= c_num as u64) by {
                vstd::arithmetic::div_mod::lemma_div_nonincreasing(
                    c_num as int,
                    sample_rate as int,
                );
            }
        }
        let k: i64 = (((c as u128) * (FP_ONE as u128)) / ((FP_ONE as u128) + (c as u128))) as i64;
        proof {
            lemma_coeff_range(self.cutoff as int, sample_rate as int);
            assert(k as int == filter_coeff(self.cutoff as int, sample_rate as int));
            lemma_fp_mul_unit_bound(input as int, k as int, SAMPLE_CAP as int);
            lemma_fp_mul_unit_bound(self.y1 as int, FP_ONE - k, SAMPLE_CAP as int);
            lemma_fp_blend_bound(input as int, self.y1 as int, k as int, SAMPLE_CAP as int);
            assert(-0x400000000000000000000000 <= (input as int) * (k as int)
                <= 0x400000000000000000000000 && -0x400000000000000000000000 <= (
            self.y1 as int) * ((FP_ONE - k) as int) <= 0x400000000000000000000000)
                by (nonlinear_arith)
                requires
                    -SAMPLE_CAP <= input <= SAMPLE_CAP,
                    -SAMPLE_CAP <= self.y1 <= SAMPLE_CAP,
                    0 <= k <= FP_ONE,
            ;
        }
        let t1: i64 = mul_fp(input, k);
        let t2: i64 = mul_fp(self.y1, FP_ONE - k);
        let output: i64 = t1 + t2;
        proof {
            lemma_fp_mul_unit_bound(output as int, k as int, SAMPLE_CAP as int);
            lemma_fp_mul_unit_bound(self.y2 as int, FP_ONE - k, SAMPLE_CAP as int);
            lemma_fp_blend_bound(output as int, self.y2 as int, k as int, SAMPLE_CAP as int);
            assert(-0x400000000000000000000000 <= (output as int) * (k as int)
                <= 0x400000000000000000000000 && -0x400000000000000000000000 <= (
            self.y2 as int) * ((FP_ONE - k) as int) <= 0x400000000000000000000000)
                by (nonlinear_arith)
                requires
                    -SAMPLE_CAP <= output <= SAMPLE_CAP,
                    -SAMPLE_CAP <= self.y2 <= SAMPLE_CAP,
                    0 <= k <= FP_ONE,
            ;
        }
        let u1: i64 = mul_fp(output, k);
        let u2: i64 = mul_fp(self.y2, FP_ONE - k);
        self.y1 = u1 + u2;
        self.y2 = output;
        output
    }
}

} // verus!
