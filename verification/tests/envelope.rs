use subsynth::envelope::{Envelope, Stage, EPS_FP};
use subsynth::fx::{FP_HALF, FP_ONE};

#[test]
fn new_defaults() {
    let e = Envelope::new(44100);
    assert_eq!(e.attack, 42949672); // 10 ms
    assert_eq!(e.decay, 429496729); // 100 ms
    assert_eq!(e.sustain, FP_HALF);
    assert_eq!(e.release, 858993459); // 200 ms
    assert_eq!(e.stage, Stage::Idle);
    assert_eq!(e.level, 0);
    assert_eq!(e.sample_rate, 44100);
}

#[test]
fn idle_forces_level_to_zero() {
    let mut e = Envelope::new(44100);
    e.level = FP_HALF;
    assert_eq!(e.process(), 0);
    assert_eq!(e.stage, Stage::Idle);
}

#[test]
fn attack_reaches_full_level_within_expected_calls() {
    // attack = 10 ms at 44100 Hz: full level within ceil(0.01 * 44100) = 441
    // calls, with the stage at Decay at or before that point.
    let mut e = Envelope::new(44100);
    e.trigger();
    assert_eq!(e.stage, Stage::Attack);
    assert_eq!(e.level, 0);
    let mut reached_at: Option<u32> = None;
    for n in 1..=441u32 {
        let level = e.process();
        if level >= FP_ONE && reached_at.is_none() {
            reached_at = Some(n);
        }
    }
    assert_eq!(reached_at, Some(441));
    assert_eq!(e.level, FP_ONE);
    assert_eq!(e.stage, Stage::Decay);
}

#[test]
fn decay_settles_at_sustain() {
    let mut e = Envelope::new(44100);
    e.stage = Stage::Decay;
    e.level = FP_ONE;
    let mut n = 0u32;
    while e.stage == Stage::Decay {
        let before = e.level;
        e.process();
        assert!(e.level <= before);
        n += 1;
        assert!(n < 100000);
    }
    assert_eq!(e.stage, Stage::Sustain);
    assert_eq!(e.level, e.sustain);
}

#[test]
fn sustain_holds_level() {
    let mut e = Envelope::new(44100);
    e.stage = Stage::Sustain;
    e.level = FP_HALF;
    for _ in 0..100 {
        assert_eq!(e.process(), FP_HALF);
        assert_eq!(e.stage, Stage::Sustain);
    }
}

#[test]
fn release_decays_monotonically_to_idle() {
    // From Sustain at level = sustain = 0.5: after release_stage, process
    // drives the level strictly down to the idle threshold; with release =
    // 200 ms at 44100 Hz it lands exactly after 54819 calls.
    let mut e = Envelope::new(44100);
    e.stage = Stage::Sustain;
    e.sustain = FP_HALF;
    e.level = FP_HALF;
    e.r_stage();
    assert_eq!(e.stage, Stage::Release);
    let mut n = 0u32;
    while e.stage == Stage::Release {
        let before = e.level;
        e.process();
        assert!(e.level < before);
        n += 1;
        assert!(n < 100000);
    }
    assert_eq!(n, 54819);
    assert_eq!(e.stage, Stage::Idle);
    assert_eq!(e.level, 0);
    assert!(e.level <= EPS_FP);
}

#[test]
fn release_from_idle_returns_to_idle_next_sample() {
    let mut e = Envelope::new(44100);
    e.r_stage();
    assert_eq!(e.stage, Stage::Release);
    e.process();
    assert_eq!(e.stage, Stage::Idle);
    assert_eq!(e.level, 0);
}

#[test]
fn stage_jumps() {
    let mut e = Envelope::new(44100);
    e.d_stage();
    assert_eq!(e.stage, Stage::Decay);
    let mut e = Envelope::new(44100);
    e.s_stage();
    assert_eq!(e.stage, Stage::Decay);
    e.r_stage();
    assert_eq!(e.stage, Stage::Release);
}

#[test]
fn setters_store_clamped_and_return_input() {
    let mut e = Envelope::new(44100);
    assert_eq!(e.mod_atk(7 * FP_ONE), 7 * FP_ONE);
    assert_eq!(e.attack, 7 * FP_ONE);
    assert_eq!(e.mod_atk(-3), -3);
    assert_eq!(e.attack, 1);
    assert_eq!(e.mod_dec(0), 0);
    assert_eq!(e.decay, 1);
    assert_eq!(e.mod_rel(FP_ONE), FP_ONE);
    assert_eq!(e.release, FP_ONE);
    assert_eq!(e.mod_sus(2 * FP_ONE), 2 * FP_ONE);
    assert_eq!(e.sustain, FP_ONE);
    assert_eq!(e.mod_sus(-1), -1);
    assert_eq!(e.sustain, 0);
}

#[test]
fn trigger_restarts_from_zero() {
    let mut e = Envelope::new(44100);
    e.stage = Stage::Sustain;
    e.level = FP_HALF;
    e.trigger();
    assert_eq!(e.stage, Stage::Attack);
    assert_eq!(e.level, 0);
}
