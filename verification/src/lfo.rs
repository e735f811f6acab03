//! The low-frequency oscillator: a free-running sine used only as a
//! modulation source for the filter cutoff, never mixed into the audio.

use crate::fx::FP_ONE;
use crate::osc::{advance_phase, sine_sample, sine_wave, MAX_OSC_FREQ_FP};
use vstd::arithmetic::div_mod::{lemma_div_pos_is_pos, lemma_multiply_divide_lt};
use vstd::prelude::*;

verus! {

/// A free-running sine modulator with a phase in `[0, 1)` and a frequency in
/// Q32 Hz.
pub struct LFO {
    pub phase: i64,
    pub freq: i64,
}

impl LFO {
    /// Well-formed: phase within one cycle, frequency nonnegative and within
    /// the oscillator cap.
    pub open spec fn inv(self) -> bool {
        &&& 0 <= self.phase < FP_ONE
        &&& 0 <= self.freq <= MAX_OSC_FREQ_FP
    }

    /// A fresh LFO: phase 0, 2.4 Hz.
    pub fn new() -> (l: LFO)
        ensures
            l.inv(),
            l.phase == 0,
            l.freq == 10307921510,
    {
        LFO { phase: 0, freq: 10307921510 }
    }

    /// Produce the sine value at the current phase, then advance the phase
    /// by `freq/sample_rate` and wrap it back into `[0, 1)`.
    pub fn process(&mut self, sample_rate: i64) -> (v: i64)
        requires
            old(self).inv(),
            1 <= sample_rate,
            (old(self).freq as int) < (sample_rate as int) * (FP_ONE as int),
        ensures
            final(self).inv(),
            final(self).freq == old(self).freq,
            final(self).phase == advance_phase(
                old(self).phase as int,
                old(self).freq as int,
                sample_rate as int,
            ),
            v as int == sine_wave(old(self).phase as int),
            -FP_ONE <= v <= FP_ONE,
    {
        let out: i64 = sine_sample(self.phase);
        let inc: i64 = ((self.freq as u64) / (sample_rate as u64)) as i64;
        proof {
            lemma_multiply_divide_lt(self.freq as int, sample_rate as int, FP_ONE as int);
            lemma_div_pos_is_pos(self.freq as int, sample_rate as int);
        }
        let next: i64 = self.phase + inc;
        self.phase = if next >= FP_ONE {
            next - FP_ONE
        } else {
            next
        };
        out
    }
}

} // verus!
