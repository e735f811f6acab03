use subsynth::filter::{LowPassFilter, MAX_CUTOFF_FP};
use subsynth::fx::{FP_HALF, FP_ONE};
use subsynth::params::ParameterStore;

#[test]
fn filter_new_defaults() {
    let f = LowPassFilter::new();
    assert_eq!(f.cutoff, 1000 * FP_ONE);
    assert_eq!(f.resonance, FP_HALF);
    assert_eq!(f.y1, 0);
    assert_eq!(f.y2, 0);
}

#[test]
fn filter_passes_dc_at_wide_open_cutoff() {
    // With the cutoff at its 20 kHz cap (the audible band's top, toward the
    // 22.05 kHz Nyquist frequency of a 44100 Hz rate), a DC input of 1.0
    // settles at 1.0 less one quantum of truncation.
    let mut f = LowPassFilter::new();
    f.cutoff = MAX_CUTOFF_FP;
    let mut out = 0i64;
    let mut prev = 0i64;
    for n in 0..3000 {
        prev = out;
        out = f.process(FP_ONE, 44100);
        if n > 0 {
            assert!(out >= prev); // monotone settling toward the input
        }
    }
    assert_eq!(out, FP_ONE - 1);
}

#[test]
fn filter_state_persists_across_calls() {
    let mut f = LowPassFilter::new();
    f.process(FP_ONE, 44100);
    assert!(f.y1 != 0 || f.y2 != 0);
    // A zero input right after a pulse still produces ringing output.
    let out = f.process(0, 44100);
    assert!(out != 0);
}

#[test]
fn filter_resonance_is_inert() {
    // The stored resonance takes no part in the transfer function.
    let mut a = LowPassFilter::new();
    let mut b = LowPassFilter::new();
    b.resonance = 0;
    for i in 0..100i64 {
        let x = (i % 7 - 3) * (FP_ONE / 4);
        assert_eq!(a.process(x, 44100), b.process(x, 44100));
    }
}

#[test]
fn params_new_defaults() {
    let p = ParameterStore::new();
    assert_eq!(p.osc1_freq, 440 * FP_ONE);
    assert_eq!(p.osc2_freq, 440 * FP_ONE);
    assert_eq!(p.filter_cutoff, 1000 * FP_ONE);
    assert_eq!(p.filter_resonance, FP_HALF);
    assert_eq!(p.lfo_freq, FP_ONE);
    assert_eq!(p.lfo_amount, FP_HALF);
}

#[test]
fn parameter_round_trip_for_matching_scales() {
    // set(x) then get() returns x exactly for the two oscillator
    // frequencies, the cutoff and the resonance.
    let mut p = ParameterStore::new();
    for index in 0..4i32 {
        for i in 0..=100i64 {
            let x = i * (FP_ONE / 100);
            p.set_parameter(index, x);
            assert_eq!(p.get_parameter(index), x);
        }
        p.set_parameter(index, FP_ONE);
        assert_eq!(p.get_parameter(index), FP_ONE);
        p.set_parameter(index, 0);
        assert_eq!(p.get_parameter(index), 0);
    }
}

#[test]
fn lfo_parameter_round_trips_double() {
    // The LFO frequency writes through x20 but reads back through /10, and
    // the LFO amount writes through x2 but reads back unscaled: both round
    // trips double the value.
    let mut p = ParameterStore::new();
    for index in 4..6i32 {
        for i in 0..=100i64 {
            let x = i * (FP_ONE / 100);
            p.set_parameter(index, x);
            assert_eq!(p.get_parameter(index), 2 * x);
        }
    }
}

#[test]
fn set_parameter_scales_to_engineering_units_and_clamps() {
    let mut p = ParameterStore::new();
    p.set_parameter(0, FP_HALF);
    assert_eq!(p.osc1_freq, 10000 * FP_ONE);
    p.set_parameter(2, FP_ONE);
    assert_eq!(p.filter_cutoff, 20000 * FP_ONE);
    p.set_parameter(4, FP_HALF);
    assert_eq!(p.lfo_freq, 10 * FP_ONE);
    p.set_parameter(5, FP_ONE);
    assert_eq!(p.lfo_amount, 2 * FP_ONE);
    p.set_parameter(3, -FP_ONE);
    assert_eq!(p.filter_resonance, 0);
    p.set_parameter(3, 3 * FP_ONE);
    assert_eq!(p.filter_resonance, FP_ONE);
    // Unknown indices change nothing and read back zero.
    let before_cutoff = p.filter_cutoff;
    p.set_parameter(6, FP_ONE);
    assert_eq!(p.filter_cutoff, before_cutoff);
    assert_eq!(p.get_parameter(6), 0);
    assert_eq!(p.get_parameter(-1), 0);
}

#[test]
fn parameter_names() {
    let p = ParameterStore::new();
    assert_eq!(p.get_parameter_name(0), "Osc1 Freq");
    assert_eq!(p.get_parameter_name(1), "Osc2 Freq");
    assert_eq!(p.get_parameter_name(2), "Filter Cutoff");
    assert_eq!(p.get_parameter_name(3), "Filter Resonance");
    assert_eq!(p.get_parameter_name(4), "LFO Freq");
    assert_eq!(p.get_parameter_name(5), "LFO Amount");
    assert_eq!(p.get_parameter_name(9), "");
}
