//! The oscillator bank's single voice: one periodic (or noise) waveform
//! generator with a running phase in `[0, 1)`.

use crate::fx::{FP_HALF, FP_ONE};
use rand::Rng;
use vstd::arithmetic::div_mod::{
    lemma_div_is_ordered, lemma_div_multiples_vanish, lemma_div_pos_is_pos,
    lemma_multiply_divide_lt,
};
use vstd::prelude::*;

verus! {

/// The waveform an oscillator produces.
#[derive(Clone, Copy, PartialEq, Eq, Structural, Debug)]
pub enum Waveform {
    Sine,
    Saw,
    Square,
    Triangle,
    Noise,
}

/// The largest frequency a voice oscillator is ever set to (Q32 Hz): above
/// the highest MIDI note (including its detuned copy), below every sample
/// rate the engine accepts, so a phase increment is always below one cycle.
pub const MAX_OSC_FREQ_FP: i64 = 12800 * FP_ONE;

/// One half-period of the parabolic sine in Q32: `16*q*(1/2 - q)`, the
/// parabola through 0 at `q = 0` and `q = 1/2` that peaks at 1 for `q = 1/4`.
pub open spec fn sine_arch(q: int) -> int {
    (16 * q * (FP_HALF as int - q)) / (FP_ONE as int)
}

/// The sine waveform: a piecewise-parabolic wave, odd-symmetric about phase
/// one half, with range `[-1, 1]`; this closed form is what the oscillator
/// and the LFO produce for `Sine`.
pub open spec fn sine_wave(phase: int) -> int {
    if phase < FP_HALF {
        sine_arch(phase)
    } else {
        -sine_arch(phase - FP_HALF)
    }
}

/// The saw waveform: `1 - 2*phase`, a descending ramp with range `(-1, 1]`.
pub open spec fn saw_wave(phase: int) -> int {
    FP_ONE - 2 * phase
}

/// The square waveform: `+1` below phase one half, `-1` from there on.
pub open spec fn square_wave(phase: int) -> int {
    if phase < FP_HALF {
        FP_ONE as int
    } else {
        -(FP_ONE as int)
    }
}

/// The triangle waveform: `4*phase - 1` rising, `3 - 4*phase` falling.
pub open spec fn triangle_wave(phase: int) -> int {
    if phase < FP_HALF {
        4 * phase - FP_ONE
    } else {
        3 * (FP_ONE as int) - 4 * phase
    }
}

/// The closed form each phase-driven waveform takes at a phase. `Noise` has
/// no closed form; it is constrained by [`osc_out_ok`] instead.
pub open spec fn wave_value(w: Waveform, phase: int) -> int {
    match w {
        Waveform::Sine => sine_wave(phase),
        Waveform::Saw => saw_wave(phase),
        Waveform::Square => square_wave(phase),
        Waveform::Triangle => triangle_wave(phase),
        Waveform::Noise => 0,
    }
}

/// What one oscillator output can be: exactly the closed form for the
/// phase-driven waveforms, any value in `[-1, 1)` for noise.
pub open spec fn osc_out_ok(w: Waveform, phase: int, v: int) -> bool {
    match w {
        Waveform::Noise => -(FP_ONE as int) <= v < FP_ONE as int,
        _ => v == wave_value(w, phase),
    }
}

/// The phase after one sample: advanced by `freq/sample_rate` and wrapped
/// back into `[0, 1)` by a single subtraction (the increment is below one).
pub open spec fn advance_phase(phase: int, freq: int, sr: int) -> int {
    let next = phase + freq / sr;
    if next >= FP_ONE {
        next - FP_ONE
    } else {
        next
    }
}

/// The parabolic half-period stays within `[0, 1]` on `[0, 1/2]`.
pub proof fn lemma_sine_arch_range(q: int)
    requires
        0 <= q <= FP_HALF,
    ensures
        0 <= sine_arch(q) <= FP_ONE as int,
{
    let h: int = FP_HALF as int;
    let s: int = FP_ONE as int;
    assert((h - 2 * q) * (h - 2 * q) >= 0) by (nonlinear_arith);
    assert(0 <= 16 * q * (h - q) <= s * s) by (nonlinear_arith)
        requires
            0 <= q <= h,
            s == 2 * h,
            (h - 2 * q) * (h - 2 * q) >= 0,
    ;
    lemma_div_pos_is_pos(16 * q * (h - q), s);
    lemma_div_is_ordered(16 * q * (h - q), s * s, s);
    lemma_div_multiples_vanish(s, s);
}

/// Every waveform's closed form lies within `[-1, 1]` for a phase in `[0, 1)`.
pub proof fn lemma_wave_range(w: Waveform, phase: int)
    requires
        0 <= phase < FP_ONE,
    ensures
        -(FP_ONE as int) <= wave_value(w, phase) <= FP_ONE as int,
{
    match w {
        Waveform::Sine => {
            if phase < FP_HALF {
                lemma_sine_arch_range(phase);
            } else {
                lemma_sine_arch_range(phase - FP_HALF);
            }
        },
        _ => {},
    }
}

/// Relies on `rand::thread_rng` and `rand::Rng::gen_range`: a uniform draw
/// from the half-open range `[lo, hi)`. `gen_range` panics on an empty
/// range, so a nonempty one is required.
#[verifier::external_body]
fn random_in_range(lo: i64, hi: i64) -> (r: i64)
    requires
        lo < hi,
    ensures
        lo <= r < hi,
{
    rand::thread_rng().gen_range(lo..hi)
}

/// One sample of the parabolic sine at a phase; exact per [`sine_wave`].
pub fn sine_sample(phase: i64) -> (s: i64)
    requires
        0 <= phase < FP_ONE,
    ensures
        s as int == sine_wave(phase as int),
        -FP_ONE <= s <= FP_ONE,
{
    let q: i64 = if phase < FP_HALF {
        phase
    } else {
        phase - FP_HALF
    };
    proof {
        assert(16 * (q as int) * ((FP_HALF - q) as int) < 0x100000000000000000)
            by (nonlinear_arith)
            requires
                0 <= q <= FP_HALF,
        ;
        lemma_sine_arch_range(q as int);
    }
    let prod: u128 = 16u128 * (q as u128) * ((FP_HALF - q) as u128);
    let v: u128 = prod / 4294967296u128;
    if phase < FP_HALF {
        v as i64
    } else {
        -(v as i64)
    }
}

/// One voice oscillator: a running phase in `[0, 1)`, a frequency in Q32 Hz,
/// and the waveform it produces.
pub struct Oscillator {
    pub phase: i64,
    pub freq: i64,
    pub waveform: Waveform,
}

impl Oscillator {
    /// Well-formed: phase within one cycle, frequency nonnegative and within
    /// the oscillator cap.
    pub open spec fn inv(self) -> bool {
        &&& 0 <= self.phase < FP_ONE
        &&& 0 <= self.freq <= MAX_OSC_FREQ_FP
    }

    /// A fresh oscillator: phase 0, 440 Hz, the given waveform.
    pub fn new(waveform: Waveform) -> (o: Oscillator)
        ensures
            o.inv(),
            o.phase == 0,
            o.freq == 440 * (FP_ONE as int),
            o.waveform == waveform,
    {
        Oscillator { phase: 0, freq: 440 * FP_ONE, waveform }
    }

    /// Produce one sample of the waveform at the current phase, then advance
    /// the phase by `freq/sample_rate` and wrap it back into `[0, 1)`.
    pub fn generate_sample(&mut self, sample_rate: i64) -> (s: i64)
        requires
            old(self).inv(),
            1 <= sample_rate,
            (old(self).freq as int) < (sample_rate as int) * (FP_ONE as int),
        ensures
            final(self).inv(),
            final(self).freq == old(self).freq,
            final(self).waveform == old(self).waveform,
            final(self).phase == advance_phase(
                old(self).phase as int,
                old(self).freq as int,
                sample_rate as int,
            ),
            osc_out_ok(old(self).waveform, old(self).phase as int, s as int),
            -FP_ONE <= s <= FP_ONE,
    {
        let out: i64 = match self.waveform {
            Waveform::Sine => sine_sample(self.phase),
            Waveform::Saw => FP_ONE - 2 * self.phase,
            Waveform::Square => if self.phase < FP_HALF {
                FP_ONE
            } else {
                -FP_ONE
            },
            Waveform::Triangle => if self.phase < FP_HALF {
                4 * self.phase - FP_ONE
            } else {
                3 * FP_ONE - 4 * self.phase
            },
            Waveform::Noise => random_in_range(-FP_ONE, FP_ONE),
        };
        proof {
            lemma_wave_range(self.waveform, self.phase as int);
        }
        let inc: i64 = ((self.freq as u64) / (sample_rate as u64)) as i64;
        proof {
            lemma_multiply_divide_lt(
                self.freq as int,
                sample_rate as int,
                FP_ONE as int,
            );
            lemma_div_pos_is_pos(self.freq as int, sample_rate as int);
        }
        let next: i64 = self.phase + inc;
        self.phase = if next >= FP_ONE {
            next - FP_ONE
        } else {
            next
        };
        out
    }
}

} // verus!
