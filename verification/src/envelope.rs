//! The ADSR envelope: a five-stage state machine advanced once per sample,
//! producing an amplitude multiplier in `[0, 1]`.

use crate::fx::FP_ONE;
use vstd::arithmetic::div_mod::lemma_div_pos_is_pos;
use vstd::prelude::*;

verus! {

/// The stage an envelope is in.
#[derive(Clone, Copy, PartialEq, Eq, Structural, Debug)]
pub enum Stage {
    Idle,
    Attack,
    Decay,
    Sustain,
    Release,
}

/// The level below which a releasing envelope snaps to zero and goes idle:
/// one thousandth, in Q32.
pub const EPS_FP: i64 = 4294967;

/// An ADSR envelope. Times are Q32 seconds (at least one quantum, so every
/// per-sample quotient is defined), `sustain` and `level` are Q32 values in
/// `[0, 1]`, and `sample_rate` is in integer Hz.
pub struct Envelope {
    pub attack: i64,
    pub decay: i64,
    pub sustain: i64,
    pub release: i64,
    pub stage: Stage,
    pub level: i64,
    pub sample_rate: i64,
}

/// The per-sample attack increment `1/(attack*sample_rate)` in Q32, floored
/// at one quantum so an attack always makes progress.
pub open spec fn attack_inc(e: Envelope) -> int {
    let raw = ((FP_ONE as int) * (FP_ONE as int)) / (e.attack * e.sample_rate);
    if raw < 1 {
        1
    } else {
        raw
    }
}

/// The per-sample decay decrement `(1-sustain)/(decay*sample_rate)` in Q32,
/// floored at one quantum so a decay always makes progress.
pub open spec fn decay_dec(e: Envelope) -> int {
    let raw = ((FP_ONE - e.sustain) * (FP_ONE as int)) / (e.decay * e.sample_rate);
    if raw < 1 {
        1
    } else {
        raw
    }
}

/// The per-sample release decrement `level/(release*sample_rate)` in Q32
/// (an exponential decay toward zero), floored at one quantum so a release
/// always reaches the idle threshold.
pub open spec fn release_dec(e: Envelope) -> int {
    let raw = (e.level * (FP_ONE as int)) / (e.release * e.sample_rate);
    if raw < 1 {
        1
    } else {
        raw
    }
}

/// One `process` transition of the envelope state machine.
pub open spec fn env_step(e: Envelope) -> Envelope {
    match e.stage {
        Stage::Idle => Envelope { level: 0, ..e },
        Stage::Attack => if e.level + attack_inc(e) >= FP_ONE {
            Envelope { level: FP_ONE, stage: Stage::Decay, ..e }
        } else {
            Envelope { level: (e.level + attack_inc(e)) as i64, ..e }
        },
        Stage::Decay => if e.level - decay_dec(e) <= e.sustain {
            Envelope { level: e.sustain, stage: Stage::Sustain, ..e }
        } else {
            Envelope { level: (e.level - decay_dec(e)) as i64, ..e }
        },
        Stage::Sustain => e,
        Stage::Release => if e.level - release_dec(e) <= EPS_FP {
            Envelope { level: 0, stage: Stage::Idle, ..e }
        } else {
            Envelope { level: (e.level - release_dec(e)) as i64, ..e }
        },
    }
}

/// The envelope after `n` `process` transitions.
pub open spec fn env_steps(e: Envelope, n: nat) -> Envelope
    decreases n,
{
    if n == 0 {
        e
    } else {
        env_steps(env_step(e), (n - 1) as nat)
    }
}

impl Envelope {
    /// Well-formed: positive time constants and sample rate, sustain and
    /// level within `[0, 1]`.
    pub open spec fn inv(self) -> bool {
        &&& 1 <= self.attack
        &&& 1 <= self.decay
        &&& 1 <= self.release
        &&& 0 <= self.sustain <= FP_ONE
        &&& 0 <= self.level <= FP_ONE
        &&& 1 <= self.sample_rate
    }

    /// A fresh idle envelope: attack 10 ms, decay 100 ms, sustain one half,
    /// release 200 ms, level zero.
    pub fn new(sample_rate: i64) -> (e: Envelope)
        requires
            1 <= sample_rate,
        ensures
            e.inv(),
            e.attack == 42949672,
            e.decay == 429496729,
            e.sustain == 2147483648,
            e.release == 858993459,
            e.stage == Stage::Idle,
            e.level == 0,
            e.sample_rate == sample_rate,
    {
        Envelope {
            attack: 42949672,
            decay: 429496729,
            sustain: 2147483648,
            release: 858993459,
            stage: Stage::Idle,
            level: 0,
            sample_rate,
        }
    }

    /// Restart the envelope: attack stage from level zero.
    pub fn trigger(&mut self)
        ensures
            *final(self) == (Envelope { stage: Stage::Attack, level: 0, ..*old(self) }),
    {
        self.stage = Stage::Attack;
        self.level = 0;
    }

    /// Jump to the decay stage.
    pub fn d_stage(&mut self)
        ensures
            *final(self) == (Envelope { stage: Stage::Decay, ..*old(self) }),
    {
        self.stage = Stage::Decay;
    }

    /// Jump to the decay stage; the sustain stage is only ever reached by
    /// `process` once the level has fallen to the sustain value.
    pub fn s_stage(&mut self)
        ensures
            *final(self) == (Envelope { stage: Stage::Decay, ..*old(self) }),
    {
        self.stage = Stage::Decay;
    }

    /// Jump to the release stage, from any stage.
    pub fn r_stage(&mut self)
        ensures
            *final(self) == (Envelope { stage: Stage::Release, ..*old(self) }),
    {
        self.stage = Stage::Release;
    }

    /// Set the attack time (Q32 seconds), clamped to at least one quantum;
    /// returns the value that was passed in.
    pub fn mod_atk(&mut self, new_value: i64) -> (r: i64)
        ensures
            r == new_value,
            *final(self) == (Envelope {
                attack: if new_value < 1 { 1i64 } else { new_value },
                ..*old(self)
            }),
    {
        self.attack = if new_value < 1 {
            1
        } else {
            new_value
        };
        new_value
    }

    /// Set the decay time (Q32 seconds), clamped to at least one quantum;
    /// returns the value that was passed in.
    pub fn mod_dec(&mut self, new_value: i64) -> (r: i64)
        ensures
            r == new_value,
            *final(self) == (Envelope {
                decay: if new_value < 1 { 1i64 } else { new_value },
                ..*old(self)
            }),
    {
        self.decay = if new_value < 1 {
            1
        } else {
            new_value
        };
        new_value
    }

    /// Set the sustain level, clamped into `[0, 1]`; returns the value that
    /// was passed in.
    pub fn mod_sus(&mut self, new_value: i64) -> (r: i64)
        ensures
            r == new_value,
            *final(self) == (Envelope {
                sustain: if new_value < 0 {
                    0i64
                } else if new_value > FP_ONE {
                    FP_ONE
                } else {
                    new_value
                },
                ..*old(self)
            }),
    {
        self.sustain = if new_value < 0 {
            0
        } else if new_value > FP_ONE {
            FP_ONE
        } else {
            new_value
        };
        new_value
    }

    /// Set the release time (Q32 seconds), clamped to at least one quantum;
    /// returns the value that was passed in.
    pub fn mod_rel(&mut self, new_value: i64) -> (r: i64)
        ensures
            r == new_value,
            *final(self) == (Envelope {
                release: if new_value < 1 { 1i64 } else { new_value },
                ..*old(self)
            }),
    {
        self.release = if new_value < 1 {
            1
        } else {
            new_value
        };
        new_value
    }

    /// Advance the state machine by one sample and return the new level.
    /// The transition is exactly [`env_step`]; in the release stage the
    /// level strictly decreases until it snaps to zero and the envelope
    /// goes idle.
    pub fn process(&mut self) -> (level: i64)
        requires
            old(self).inv(),
        ensures
            final(self).inv(),
            *final(self) == env_step(*old(self)),
            level == final(self).level,
            old(self).stage == Stage::Release ==> final(self).level <= old(self).level,
            old(self).stage == Stage::Release && old(self).level > 0 ==> final(self).level < old(
                self,
            ).level,
    {
        proof {
            lemma_env_products(*self);
        }
        match self.stage {
            Stage::Idle => {
                self.level = 0;
            },
            Stage::Attack => {
                let denom: u128 = (self.attack as u128) * (self.sample_rate as u128);
                let raw: u128 = 0x10000000000000000u128 / denom;
                let inc: u128 = if raw < 1 {
                    1
                } else {
                    raw
                };
                let lvl: u128 = (self.level as u128) + inc;
                if lvl >= FP_ONE as u128 {
                    self.level = FP_ONE;
                    self.stage = Stage::Decay;
                } else {
                    self.level = lvl as i64;
                }
            },
            Stage::Decay => {
                let denom: u128 = (self.decay as u128) * (self.sample_rate as u128);
                let num: u128 = ((FP_ONE - self.sustain) as u128) * (FP_ONE as u128);
                let raw: u128 = num / denom;
                let dec: u128 = if raw < 1 {
                    1
                } else {
                    raw
                };
                proof {
                    lemma_div_pos_is_pos(num as int, denom as int);
                }
                let lvl: i128 = (self.level as i128) - (dec as i128);
                if lvl <= self.sustain as i128 {
                    self.level = self.sustain;
                    self.stage = Stage::Sustain;
                } else {
                    self.level = lvl as i64;
                }
            },
            Stage::Sustain => {},
            Stage::Release => {
                let denom: u128 = (self.release as u128) * (self.sample_rate as u128);
                let num: u128 = (self.level as u128) * (FP_ONE as u128);
                let raw: u128 = num / denom;
                let dec: u128 = if raw < 1 {
                    1
                } else {
                    raw
                };
                proof {
                    lemma_div_pos_is_pos(num as int, denom as int);
                }
                let lvl: i128 = (self.level as i128) - (dec as i128);
                if lvl <= EPS_FP as i128 {
                    self.level = 0;
                    self.stage = Stage::Idle;
                } else {
                    self.level = lvl as i64;
                }
            },
        }
        self.level
    }
}

/// The products a well-formed envelope's step divides by are positive and
/// fit the machine arithmetic, and each decrement's raw quotient is bounded
/// by the dividend.
proof fn lemma_env_products(e: Envelope)
    requires
        e.inv(),
    ensures
        1 <= e.attack * e.sample_rate < 0x100000000000000000000000000000000,
        1 <= e.decay * e.sample_rate < 0x100000000000000000000000000000000,
        1 <= e.release * e.sample_rate < 0x100000000000000000000000000000000,
{
    assert(1 <= e.attack * e.sample_rate < 0x100000000000000000000000000000000
        && 1 <= e.decay * e.sample_rate < 0x100000000000000000000000000000000
        && 1 <= e.release * e.sample_rate < 0x100000000000000000000000000000000)
        by (nonlinear_arith)
        requires
            1 <= e.attack < 0x8000000000000000,
            1 <= e.decay < 0x8000000000000000,
            1 <= e.release < 0x8000000000000000,
            1 <= e.sample_rate < 0x8000000000000000,
    ;
}

/// [`env_step`] preserves well-formedness.
pub proof fn lemma_env_step_inv(e: Envelope)
    requires
        e.inv(),
    ensures
        env_step(e).inv(),
{
    lemma_env_products(e);
    match e.stage {
        Stage::Attack => {
            lemma_div_pos_is_pos(
                (FP_ONE as int) * (FP_ONE as int),
                e.attack * e.sample_rate,
            );
        },
        Stage::Decay => {
            lemma_div_pos_is_pos(
                (FP_ONE - e.sustain) * (FP_ONE as int),
                e.decay * e.sample_rate,
            );
        },
        Stage::Release => {
            lemma_div_pos_is_pos(e.level * (FP_ONE as int), e.release * e.sample_rate);
        },
        _ => {},
    }
}

/// An idle envelope stays idle, and its level is zero from the first step on.
pub proof fn lemma_idle_stays(e: Envelope, n: nat)
    requires
        e.stage == Stage::Idle,
    ensures
        env_steps(e, n).stage == Stage::Idle,
        n >= 1 ==> env_steps(e, n).level == 0,
    decreases n,
{
    if n >= 1 {
        lemma_idle_stays(env_step(e), (n - 1) as nat);
    }
}

/// A releasing envelope reaches the idle stage at level zero within a
/// bounded number of `process` calls: each step lowers the level by at
/// least one quantum, so `level + 1` steps always suffice.
pub proof fn lemma_release_reaches_idle(e: Envelope, n: nat)
    requires
        e.inv(),
        e.stage == Stage::Release,
        n >= e.level + 1,
    ensures
        env_steps(e, n).stage == Stage::Idle,
        env_steps(e, n).level == 0,
    decreases n,
{
    lemma_env_step_inv(e);
    lemma_env_products(e);
    lemma_div_pos_is_pos(e.level * (FP_ONE as int), e.release * e.sample_rate);
    let e1 = env_step(e);
    if e1.stage == Stage::Idle {
        lemma_idle_stays(e1, (n - 1) as nat);
    } else {
        lemma_release_reaches_idle(e1, (n - 1) as nat);
    }
}

} // verus!
