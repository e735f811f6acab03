//! The six continuous parameters of the voice: two oscillator base
//! frequencies, filter cutoff and resonance, LFO frequency and amount. Each
//! is stored in its engineering unit (Q32) and addressed through a
//! normalized `[0, 1]` representation.

use crate::fx::{clamp_fp, FP_HALF, FP_ONE};
use vstd::arithmetic::div_mod::lemma_div_multiples_vanish;
use vstd::prelude::*;

verus! {

/// The parameter store. Writes come from the control path, reads from the
/// render path; all values are plain Q32 integers.
pub struct ParameterStore {
    pub osc1_freq: i64,
    pub osc2_freq: i64,
    pub filter_cutoff: i64,
    pub filter_resonance: i64,
    pub lfo_freq: i64,
    pub lfo_amount: i64,
}

/// A normalized write clamped into `[0, 1]`.
pub open spec fn clamp_unit(v: int) -> int {
    clamp_fp(v, 0, FP_ONE as int)
}

/// The store after writing normalized `value` to the parameter at `index`:
/// the value is clamped into `[0, 1]` and scaled to its engineering unit
/// (x20000 Hz for the oscillator frequencies and the cutoff, unscaled for
/// the resonance, x20 Hz for the LFO frequency, x2 for the LFO amount). Any
/// other index leaves the store unchanged.
pub open spec fn set_spec(p: ParameterStore, index: int, value: int) -> ParameterStore {
    let v = clamp_unit(value);
    if index == 0 {
        ParameterStore { osc1_freq: (v * 20000) as i64, ..p }
    } else if index == 1 {
        ParameterStore { osc2_freq: (v * 20000) as i64, ..p }
    } else if index == 2 {
        ParameterStore { filter_cutoff: (v * 20000) as i64, ..p }
    } else if index == 3 {
        ParameterStore { filter_resonance: v as i64, ..p }
    } else if index == 4 {
        ParameterStore { lfo_freq: (v * 20) as i64, ..p }
    } else if index == 5 {
        ParameterStore { lfo_amount: (v * 2) as i64, ..p }
    } else {
        p
    }
}

/// The normalized read-back of the parameter at `index`. The LFO frequency
/// is read back through a /10 scale although it is written through a x20
/// scale, and the LFO amount is read back unscaled although it is written
/// through a x2 scale: those two round trips double the value. Any other
/// index reads zero.
pub open spec fn get_spec(p: ParameterStore, index: int) -> int {
    if index == 0 {
        p.osc1_freq / 20000
    } else if index == 1 {
        p.osc2_freq / 20000
    } else if index == 2 {
        p.filter_cutoff / 20000
    } else if index == 3 {
        p.filter_resonance as int
    } else if index == 4 {
        p.lfo_freq / 10
    } else if index == 5 {
        p.lfo_amount as int
    } else {
        0
    }
}

impl ParameterStore {
    /// Well-formed: each value within the range its write scale can produce.
    pub open spec fn inv(self) -> bool {
        &&& 0 <= self.osc1_freq <= 20000 * (FP_ONE as int)
        &&& 0 <= self.osc2_freq <= 20000 * (FP_ONE as int)
        &&& 0 <= self.filter_cutoff <= 20000 * (FP_ONE as int)
        &&& 0 <= self.filter_resonance <= FP_ONE
        &&& 0 <= self.lfo_freq <= 20 * (FP_ONE as int)
        &&& 0 <= self.lfo_amount <= 2 * (FP_ONE as int)
    }

    /// A fresh store: 440 Hz for both oscillators, 1000 Hz cutoff, resonance
    /// one half, 1 Hz LFO at amount one half.
    pub fn new() -> (p: ParameterStore)
        ensures
            p.inv(),
            p.osc1_freq == 440 * (FP_ONE as int),
            p.osc2_freq == 440 * (FP_ONE as int),
            p.filter_cutoff == 1000 * (FP_ONE as int),
            p.filter_resonance == FP_HALF,
            p.lfo_freq == FP_ONE,
            p.lfo_amount == FP_HALF,
    {
        ParameterStore {
            osc1_freq: 440 * FP_ONE,
            osc2_freq: 440 * FP_ONE,
            filter_cutoff: 1000 * FP_ONE,
            filter_resonance: FP_HALF,
            lfo_freq: FP_ONE,
            lfo_amount: FP_HALF,
        }
    }

    /// Write normalized `value` to the parameter at `index`, per [`set_spec`].
    pub fn set_parameter(&mut self, index: i32, value: i64)
        requires
            old(self).inv(),
        ensures
            final(self).inv(),
            *final(self) == set_spec(*old(self), index as int, value as int),
    {
        let v: i64 = if value < 0 {
            0
        } else if value > FP_ONE {
            FP_ONE
        } else {
            value
        };
        match index {
            0 => self.osc1_freq = v * 20000,
            1 => self.osc2_freq = v * 20000,
            2 => self.filter_cutoff = v * 20000,
            3 => self.filter_resonance = v,
            4 => self.lfo_freq = v * 20,
            5 => self.lfo_amount = v * 2,
            _ => (),
        }
    }

    /// Read the normalized value of the parameter at `index`, per
    /// [`get_spec`].
    pub fn get_parameter(&self, index: i32) -> (r: i64)
        requires
            self.inv(),
        ensures
            r as int == get_spec(*self, index as int),
    {
        match index {
            0 => ((self.osc1_freq as u64) / 20000u64) as i64,
            1 => ((self.osc2_freq as u64) / 20000u64) as i64,
            2 => ((self.filter_cutoff as u64) / 20000u64) as i64,
            3 => self.filter_resonance,
            4 => ((self.lfo_freq as u64) / 10u64) as i64,
            5 => self.lfo_amount,
            _ => 0,
        }
    }

    /// The display name of the parameter at `index`; empty for any other
    /// index.
    pub fn get_parameter_name(&self, index: i32) -> (r: String)
        ensures
            index == 0 ==> r@ == "Osc1 Freq"@,
            index == 1 ==> r@ == "Osc2 Freq"@,
            index == 2 ==> r@ == "Filter Cutoff"@,
            index == 3 ==> r@ == "Filter Resonance"@,
            index == 4 ==> r@ == "LFO Freq"@,
            index == 5 ==> r@ == "LFO Amount"@,
            !(0 <= index <= 5) ==> r@ == ""@,
    {
        match index {
            0 => "Osc1 Freq".to_owned(),
            1 => "Osc2 Freq".to_owned(),
            2 => "Filter Cutoff".to_owned(),
            3 => "Filter Resonance".to_owned(),
            4 => "LFO Freq".to_owned(),
            5 => "LFO Amount".to_owned(),
            _ => "".to_owned(),
        }
    }
}

/// Law: writing a normalized value in `[0, 1]` to one of the four parameters
/// whose write and read scales agree (the oscillator frequencies, the filter
/// cutoff, the filter resonance) and reading it back returns exactly the
/// value written.
pub proof fn lemma_parameter_round_trip(p: ParameterStore, index: int, x: int)
    requires
        0 <= index <= 3,
        0 <= x <= FP_ONE as int,
    ensures
        get_spec(set_spec(p, index, x), index) == x,
{
    if index <= 2 {
        lemma_div_multiples_vanish(x, 20000);
    }
}

/// Law: the LFO frequency and LFO amount round trips double the value:
/// their write scales (x20, x2) are twice their read scales (/10, unscaled).
pub proof fn lemma_lfo_round_trip_doubles(p: ParameterStore, index: int, x: int)
    requires
        4 <= index <= 5,
        0 <= x <= FP_ONE as int,
    ensures
        get_spec(set_spec(p, index, x), index) == 2 * x,
{
    if index == 4 {
        lemma_div_multiples_vanish(2 * x, 10);
    }
}

} // verus!
