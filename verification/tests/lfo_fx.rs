use subsynth::fx::{abs_u64, clamp_i64, mul_fp, FP_HALF, FP_ONE};
use subsynth::lfo::LFO;

#[test]
fn lfo_new_defaults() {
    let l = LFO::new();
    assert_eq!(l.phase, 0);
    assert_eq!(l.freq, 10307921510); // 2.4 Hz in Q32
}

#[test]
fn lfo_produces_sine_and_advances_phase() {
    let mut l = LFO::new();
    // At phase 0 the sine is 0; the phase then moves by freq/sample_rate.
    assert_eq!(l.process(44100), 0);
    assert_eq!(l.phase, 10307921510 / 44100);
    // A quarter turn gives the positive peak.
    l.phase = FP_ONE / 4;
    assert_eq!(l.process(44100), FP_ONE);
    // Three quarters gives the negative peak.
    l.phase = 3 * (FP_ONE / 4);
    assert_eq!(l.process(44100), -FP_ONE);
}

#[test]
fn lfo_phase_wraps() {
    let mut l = LFO::new();
    l.phase = FP_ONE - 1;
    l.process(44100);
    assert!(0 <= l.phase && l.phase < FP_ONE);
}

#[test]
fn fixed_point_product_is_exact_and_truncates_toward_zero() {
    // 1.5 * 0.5 == 0.75
    assert_eq!(mul_fp(FP_ONE + FP_HALF, FP_HALF), 3 * (FP_ONE / 4));
    // -1.5 * 0.5 == -0.75
    assert_eq!(mul_fp(-(FP_ONE + FP_HALF), FP_HALF), -(3 * (FP_ONE / 4)));
    // Products below one quantum truncate toward zero from both sides.
    assert_eq!(mul_fp(3, 1), 0);
    assert_eq!(mul_fp(-3, 1), 0);
    // Full scale times full scale is exact.
    assert_eq!(mul_fp(FP_ONE, FP_ONE), FP_ONE);
    assert_eq!(mul_fp(-FP_ONE, FP_ONE), -FP_ONE);
}

#[test]
fn clamp_and_abs_helpers() {
    assert_eq!(clamp_i64(5, 0, 10), 5);
    assert_eq!(clamp_i64(-5, 0, 10), 0);
    assert_eq!(clamp_i64(15, 0, 10), 10);
    assert_eq!(abs_u64(-7), 7);
    assert_eq!(abs_u64(7), 7);
    assert_eq!(abs_u64(i64::MIN), 9223372036854775808);
}
