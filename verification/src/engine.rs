//! The voice engine: a fixed bank of five oscillators, one ADSR envelope,
//! one low-pass filter and one LFO, driven by MIDI note events and rendered
//! one sample at a time.

use crate::envelope::{env_step, Envelope, Stage};
use crate::filter::{filter_step, LowPassFilter, MAX_CUTOFF_FP, MIN_CUTOFF_FP, SAMPLE_CAP};
use crate::fx::{
    clamp_fp, clamp_i64, fp_mul, lemma_fp_mul_unit_bound, lemma_tdiv_range, mul_fp, tdiv, FP_ONE,
};
use crate::lfo::LFO;
use crate::osc::{advance_phase, osc_out_ok, sine_wave, Oscillator, Waveform};
use crate::params::ParameterStore;
use vstd::arithmetic::div_mod::{
    lemma_div_is_ordered, lemma_div_pos_is_pos, lemma_fundamental_div_mod,
    lemma_mod_division_less_than_divisor,
};
use vstd::arithmetic::power2::{lemma2_to64, lemma_pow2_pos, lemma_pow2_unfold, pow2};
use vstd::prelude::*;

verus! {

/// The lowest sample rate the engine accepts (Hz): above the highest
/// oscillator frequency, so a phase increment is always below one cycle.
pub const MIN_SAMPLE_RATE: i64 = 16000;

/// The highest sample rate the engine accepts (Hz).
pub const MAX_SAMPLE_RATE: i64 = 192000;

/// The highest frequency a MIDI note maps to (Q32 Hz), reached by the top
/// pitch of the signed pitch byte.
pub const MAX_NOTE_FREQ_FP: i64 = 54000000000000;

/// The equal-tempered semitone ratios within one octave, in Q32:
/// `round(2^(r/12) * 2^32)` for `r` in `0..12`.
pub open spec fn semi_ratio(r: int) -> int {
    if r == 0 {
        4294967296
    } else if r == 1 {
        4550359342
    } else if r == 2 {
        4820937788
    } else if r == 3 {
        5107605667
    } else if r == 4 {
        5411319705
    } else if r == 5 {
        5733093519
    } else if r == 6 {
        6074001000
    } else if r == 7 {
        6435179895
    } else if r == 8 {
        6817835604
    } else if r == 9 {
        7223245206
    } else if r == 10 {
        7652761717
    } else if r == 11 {
        8107818609
    } else {
        1
    }
}

/// The frequency of a MIDI pitch byte in Q32 Hz: `440 * 2^((p-69)/12)` with
/// the byte read as a signed two's-complement value, realized exactly as the
/// twelve-ratio table shifted by octaves.
pub open spec fn midi_freq(pitch: u8) -> int {
    let sp = if pitch < 128 {
        pitch as int
    } else {
        pitch as int - 256
    };
    let e = sp + 135;
    let q = e / 12;
    let r = e % 12;
    (440 * semi_ratio(r) * pow2(q as nat)) / 131072
}

/// A frequency raised by one percent (the second voice's fixed detune).
pub open spec fn detuned(f: int) -> int {
    (f * 101) / 100
}

/// The frequency of a MIDI pitch in Q32 Hz, exact per [`midi_freq`].
pub fn midi_pitch_to_freq(pitch: u8) -> (f: i64)
    ensures
        f as int == midi_freq(pitch),
        0 < f <= MAX_NOTE_FREQ_FP,
{
    let sp: i64 = if pitch < 128 {
        pitch as i64
    } else {
        pitch as i64 - 256
    };
    let e: u64 = (sp + 135) as u64;
    let q: u64 = e / 12;
    let r: u64 = e % 12;
    proof {
        lemma_fundamental_div_mod(e as int, 12);
        lemma_mod_division_less_than_divisor(e as int, 12);
        lemma_div_is_ordered(e as int, 262, 12);
    }
    let ratio: u64 = match r {
        0 => 4294967296,
        1 => 4550359342,
        2 => 4820937788,
        3 => 5107605667,
        4 => 5411319705,
        5 => 5733093519,
        6 => 6074001000,
        7 => 6435179895,
        8 => 6817835604,
        9 => 7223245206,
        10 => 7652761717,
        _ => 8107818609,
    };
    let mut pw: u64 = 1;
    let mut i: u64 = 0;
    proof {
        lemma2_to64();
    }
    while i < q
        invariant
            i <= q,
            q <= 21,
            pw == pow2(i as nat),
            pw <= 2097152,
        decreases q - i,
    {
        proof {
            lemma_pow2_unfold((i + 1) as nat);
            vstd::arithmetic::power2::lemma_pow2_strictly_increases(i as nat, 21);
            lemma2_to64();
        }
        pw = pw * 2;
        i = i + 1;
    }
    proof {
        assert(440 * (ratio as int) * (pw as int) <= 440int * 8107818609 * 2097152
            && 440 * (ratio as int) * (pw as int) >= 440int * 4294967296) by (nonlinear_arith)
            requires
                4294967296 <= ratio <= 8107818609,
                1 <= pw <= 2097152,
        ;
    }
    let num: u128 = 440u128 * (ratio as u128) * (pw as u128);
    proof {
        lemma_pow2_pos(q as nat);
        if q == 21 {
            assert(e % 12 <= 10);
            assert(440 * (ratio as int) * (pw as int) <= 440 * 7652761717 * 2097152)
                by (nonlinear_arith)
                requires
                    ratio <= 7652761717,
                    pw <= 2097152,
            ;
        }
        lemma_div_is_ordered(440int * 4294967296, num as int, 131072);
        if q == 21 {
            lemma_div_is_ordered(num as int, 440int * 7652761717 * 2097152, 131072);
        } else {
            vstd::arithmetic::power2::lemma_pow2_strictly_increases(q as nat, 21);
            lemma2_to64();
            assert(440 * (ratio as int) * (pw as int) <= 440 * 8107818609 * 1048576)
                by (nonlinear_arith)
                requires
                    ratio <= 8107818609,
                    pw <= 1048576,
            ;
            lemma_div_is_ordered(num as int, 440int * 8107818609 * 1048576, 131072);
        }
    }
    let f: i64 = (num / 131072u128) as i64;
    f
}

/// A monophonic voice: the oscillator bank, envelope, filter and LFO, the
/// current note and note-on flag, and the shared parameter store.
pub struct VoiceEngine {
    pub sample_rate: i64,
    pub oscillators: Vec<Oscillator>,
    pub envelope: Envelope,
    pub filter: LowPassFilter,
    pub lfo: LFO,
    pub note: u8,
    pub note_on: bool,
    pub params: ParameterStore,
}

/// The oscillator-bank part of one rendered sample: oscillator `i` produced
/// `outs[i]` at its pre-call phase and advanced by one increment, and the
/// mix is the plain sum scaled by one half (truncating) - a fixed gain, not
/// normalized by the bank size.
pub open spec fn mix_ok(e0: VoiceEngine, e1: VoiceEngine, outs: Seq<int>, mix: int) -> bool {
    &&& outs.len() == 5
    &&& forall|i: int|
        0 <= i < 5 ==> osc_out_ok(
            e0.oscillators@[i].waveform,
            e0.oscillators@[i].phase as int,
            #[trigger] outs[i],
        )
    &&& e1.oscillators@.len() == 5
    &&& forall|i: int|
        0 <= i < 5 ==> #[trigger] e1.oscillators@[i] == (Oscillator {
            phase: advance_phase(
                e0.oscillators@[i].phase as int,
                e0.oscillators@[i].freq as int,
                e0.sample_rate as int,
            ) as i64,
            ..e0.oscillators@[i]
        })
    &&& mix == tdiv(outs[0] + outs[1] + outs[2] + outs[3] + outs[4], 2)
}

/// One render step with the note held: the bank mixed per `outs`, the mix shaped by the
/// stepped envelope's level, the filter cutoff re-tuned from the LFO value
/// and the cutoff and amount parameters (clamped into the audible band),
/// and the shaped sample run through the filter.
pub open spec fn render_ok(e0: VoiceEngine, e1: VoiceEngine, outs: Seq<int>, s: int) -> bool {
    let mix = tdiv(outs[0] + outs[1] + outs[2] + outs[3] + outs[4], 2);
    let shaped = fp_mul(mix, env_step(e0.envelope).level as int);
    let lv = sine_wave(e0.lfo.phase as int);
    let modulated = fp_mul(
        e0.params.filter_cutoff as int,
        (FP_ONE as int) + fp_mul(lv, e0.params.lfo_amount as int),
    );
    let cut = clamp_fp(modulated, MIN_CUTOFF_FP as int, MAX_CUTOFF_FP as int);
    let fpre = LowPassFilter { cutoff: cut as i64, ..e0.filter };
    &&& mix_ok(e0, e1, outs, mix)
    &&& e1.envelope == env_step(e0.envelope)
    &&& e1.lfo == (LFO {
        phase: advance_phase(e0.lfo.phase as int, e0.lfo.freq as int, e0.sample_rate as int) as i64,
        ..e0.lfo
    })
    &&& e1.filter == filter_step(fpre, shaped, e0.sample_rate as int).0
    &&& s == filter_step(fpre, shaped, e0.sample_rate as int).1
    &&& e1.note == e0.note
    &&& e1.note_on == e0.note_on
    &&& e1.params == e0.params
    &&& e1.sample_rate == e0.sample_rate
}

/// A sample buffer as the integer trace the block specification speaks of.
pub open spec fn as_trace(mono: Seq<i64>) -> Seq<int> {
    mono.map_values(|v: i64| v as int)
}

/// One sample of a block: a [`render_ok`] step for some bank outputs while
/// the note-on flag is up, silence and an untouched engine while it is down.
pub open spec fn sample_step_ok(e0: VoiceEngine, e1: VoiceEngine, s: int) -> bool {
    if e0.note_on {
        exists|bank: Seq<int>| render_ok(e0, e1, bank, s)
    } else {
        e1 == e0 && s == 0
    }
}

/// A whole rendered block: `outs` is the mono sample trace, produced by
/// chaining one [`sample_step_ok`] step per sample from `e0` to `e1`.
pub open spec fn run_ok(e0: VoiceEngine, e1: VoiceEngine, outs: Seq<int>) -> bool
    decreases outs.len(),
{
    if outs.len() == 0 {
        e1 == e0
    } else {
        exists|em: VoiceEngine|
            #[trigger] sample_step_ok(e0, em, outs[0]) && run_ok(em, e1, outs.drop_first())
    }
}

/// A block trace extends by one step at its end.
proof fn lemma_run_ok_snoc(a: VoiceEngine, b: VoiceEngine, c: VoiceEngine, s: Seq<int>, x: int)
    requires
        run_ok(a, b, s),
        sample_step_ok(b, c, x),
    ensures
        run_ok(a, c, s.push(x)),
    decreases s.len(),
{
    if s.len() == 0 {
        assert(s.push(x)[0] == x);
        assert(s.push(x).drop_first() =~= Seq::<int>::empty());
        assert(sample_step_ok(a, c, x));
        assert(run_ok(c, c, s.push(x).drop_first()));
    } else {
        let em = choose|em: VoiceEngine|
            #[trigger] sample_step_ok(a, em, s[0]) && run_ok(em, b, s.drop_first());
        lemma_run_ok_snoc(em, b, c, s.drop_first(), x);
        assert(s.push(x)[0] == s[0]);
        assert(s.push(x).drop_first() =~= s.drop_first().push(x));
        assert(sample_step_ok(a, em, s.push(x)[0]) && run_ok(em, c, s.push(x).drop_first()));
    }
}

impl VoiceEngine {
    /// Well-formed: the sample rate within its band, exactly five
    /// well-formed oscillators, and every sub-component well-formed.
    pub open spec fn inv(self) -> bool {
        &&& MIN_SAMPLE_RATE <= self.sample_rate <= MAX_SAMPLE_RATE
        &&& self.oscillators@.len() == 5
        &&& forall|i: int| 0 <= i < 5 ==> (#[trigger] self.oscillators@[i]).inv()
        &&& self.envelope.inv()
        &&& self.filter.inv()
        &&& self.lfo.inv()
        &&& self.params.inv()
    }

    /// A fresh voice at 44100 Hz: sine, saw, square, triangle and noise
    /// oscillators, an idle envelope, a cleared filter, the note-on flag off.
    pub fn new() -> (e: VoiceEngine)
        ensures
            e.inv(),
            e.sample_rate == 44100,
            e.note == 0,
            !e.note_on,
            e.oscillators@.len() == 5,
            e.oscillators@[0].waveform == Waveform::Sine,
            e.oscillators@[1].waveform == Waveform::Saw,
            e.oscillators@[2].waveform == Waveform::Square,
            e.oscillators@[3].waveform == Waveform::Triangle,
            e.oscillators@[4].waveform == Waveform::Noise,
            forall|i: int|
                0 <= i < 5 ==> (#[trigger] e.oscillators@[i]).phase == 0
                    && e.oscillators@[i].freq == 440 * (FP_ONE as int),
            e.envelope.stage == Stage::Idle,
            e.envelope.level == 0,
            e.envelope.sample_rate == 44100,
            e.filter.y1 == 0,
            e.filter.y2 == 0,
            e.lfo.phase == 0,
    {
        let mut oscillators: Vec<Oscillator> = Vec::new();
        oscillators.push(Oscillator::new(Waveform::Sine));
        oscillators.push(Oscillator::new(Waveform::Saw));
        oscillators.push(Oscillator::new(Waveform::Square));
        oscillators.push(Oscillator::new(Waveform::Triangle));
        oscillators.push(Oscillator::new(Waveform::Noise));
        VoiceEngine {
            sample_rate: 44100,
            oscillators,
            envelope: Envelope::new(44100),
            filter: LowPassFilter::new(),
            lfo: LFO::new(),
            note: 0,
            note_on: false,
            params: ParameterStore::new(),
        }
    }

    /// Reset the sample rate to the fixed host rate of 44100 Hz.
    pub fn init(&mut self)
        requires
            old(self).inv(),
        ensures
            final(self).inv(),
            *final(self) == (VoiceEngine { sample_rate: 44100, ..*old(self) }),
    {
        self.sample_rate = 44100;
    }

    /// Handle one MIDI message. A note-on (status 144) retunes the first
    /// oscillator to the pitch and the second to one percent above it,
    /// restarts the envelope and raises the note-on flag; the other three oscillators
    /// keep their frequencies. A note-off (status 128) for the sounding note
    /// releases the envelope and nothing else; note-offs for other notes and
    /// all other statuses are ignored. The flag is never cleared: once a
    /// note has sounded, `note_on` stays true.
    pub fn handle_midi(&mut self, status: u8, data1: u8, data2: u8)
        requires
            old(self).inv(),
        ensures
            final(self).inv(),
            final(self).note_on == (old(self).note_on || status == 144),
            status == 144 ==> {
                &&& final(self).note == data1
                &&& final(self).oscillators@.len() == 5
                &&& final(self).oscillators@[0] == (Oscillator {
                    freq: midi_freq(data1) as i64,
                    ..old(self).oscillators@[0]
                })
                &&& final(self).oscillators@[1] == (Oscillator {
                    freq: detuned(midi_freq(data1)) as i64,
                    ..old(self).oscillators@[1]
                })
                &&& forall|i: int|
                    2 <= i < 5 ==> #[trigger] final(self).oscillators@[i] == old(
                        self,
                    ).oscillators@[i]
                &&& final(self).envelope == (Envelope {
                    stage: Stage::Attack,
                    level: 0,
                    ..old(self).envelope
                })
                &&& final(self).filter == old(self).filter
                &&& final(self).lfo == old(self).lfo
                &&& final(self).params == old(self).params
                &&& final(self).sample_rate == old(self).sample_rate
            },
            status == 128 && data1 == old(self).note ==> *final(self) == (VoiceEngine {
                envelope: Envelope { stage: Stage::Release, ..old(self).envelope },
                ..*old(self)
            }),
            status == 128 && data1 != old(self).note ==> *final(self) == *old(self),
            status != 128 && status != 144 ==> *final(self) == *old(self),
    {
        if status == 128 {
            if data1 == self.note {
                self.envelope.r_stage();
            }
        } else if status == 144 {
            self.note = data1;
            let f1: i64 = midi_pitch_to_freq(data1);
            let f2: i64 = (((f1 as u128) * 101u128) / 100u128) as i64;
            proof {
                lemma_div_pos_is_pos((f1 as int) * 101, 100);
                lemma_div_is_ordered((f1 as int) * 101, 54000000000000int * 101, 100);
            }
            self.oscillators[0].freq = f1;
            self.oscillators[1].freq = f2;
            self.envelope.trigger();
            self.note_on = true;
        }
        let _ = data2;
    }

    /// Produce one sample from each of the five oscillators and mix them at
    /// the fixed gain of one half.
    pub fn mix_oscillators(&mut self) -> (mix: i64)
        requires
            old(self).inv(),
        ensures
            final(self).inv(),
            exists|outs: Seq<int>| mix_ok(*old(self), *final(self), outs, mix as int),
            -3 * (FP_ONE as int) <= mix <= 3 * (FP_ONE as int),
            final(self).envelope == old(self).envelope,
            final(self).filter == old(self).filter,
            final(self).lfo == old(self).lfo,
            final(self).note == old(self).note,
            final(self).note_on == old(self).note_on,
            final(self).params == old(self).params,
            final(self).sample_rate == old(self).sample_rate,
    {
        let sr: i64 = self.sample_rate;
        let s0: i64 = self.oscillators[0].generate_sample(sr);
        let s1: i64 = self.oscillators[1].generate_sample(sr);
        let s2: i64 = self.oscillators[2].generate_sample(sr);
        let s3: i64 = self.oscillators[3].generate_sample(sr);
        let s4: i64 = self.oscillators[4].generate_sample(sr);
        let sum: i64 = s0 + s1 + s2 + s3 + s4;
        let mix: i64 = if sum >= 0 {
            ((sum as u64) / 2u64) as i64
        } else {
            let mag: u64 = ((-(sum as i128)) as u64) / 2u64;
            -(mag as i64)
        };
        proof {
            lemma_tdiv_range(sum as int, 2, 3 * (FP_ONE as int));
            if sum >= 0 {
                lemma_div_pos_is_pos(sum as int, 2);
                lemma_div_is_ordered(sum as int, 6 * (FP_ONE as int), 2);
            } else {
                lemma_div_pos_is_pos(-(sum as int), 2);
                lemma_div_is_ordered(-(sum as int), 6 * (FP_ONE as int), 2);
            }
            let outs: Seq<int> = seq![s0 as int, s1 as int, s2 as int, s3 as int, s4 as int];
            assert(mix_ok(*old(self), *self, outs, mix as int));
        }
        mix
    }

    /// Render one sample. With the note-on flag off the engine is untouched
    /// and the sample is zero; with it on the step is exactly [`render_ok`]
    /// for some bank outputs `outs` (free only in the noise oscillator's
    /// draw).
    pub fn render_sample(&mut self) -> (s: i64)
        requires
            old(self).inv(),
        ensures
            final(self).inv(),
            !old(self).note_on ==> *final(self) == *old(self) && s == 0,
            old(self).note_on ==> exists|outs: Seq<int>|
                render_ok(*old(self), *final(self), outs, s as int),
            -SAMPLE_CAP <= s <= SAMPLE_CAP,
            final(self).note_on == old(self).note_on,
            final(self).note == old(self).note,
            final(self).params == old(self).params,
            final(self).sample_rate == old(self).sample_rate,
    {
        if !self.note_on {
            return 0;
        }
        let mix: i64 = self.mix_oscillators();
        let ghost em = *self;
        let level: i64 = self.envelope.process();
        proof {
            assert(-(3 * (FP_ONE as int)) * (FP_ONE as int) <= (mix as int) * (level as int) <= (3
                * (FP_ONE as int)) * (FP_ONE as int)) by (nonlinear_arith)
                requires
                    -3 * (FP_ONE as int) <= mix <= 3 * (FP_ONE as int),
                    0 <= level <= FP_ONE,
            ;
            lemma_fp_mul_unit_bound(mix as int, level as int, 3 * (FP_ONE as int));
        }
        let shaped: i64 = mul_fp(mix, level);
        let sr: i64 = self.sample_rate;
        let lv: i64 = self.lfo.process(sr);
        let amount: i64 = self.params.lfo_amount;
        proof {
            assert(-((FP_ONE as int) * (2 * (FP_ONE as int))) <= (lv as int) * (amount as int) <= (
            FP_ONE as int) * (2 * (FP_ONE as int))) by (nonlinear_arith)
                requires
                    -FP_ONE <= lv <= FP_ONE,
                    0 <= amount <= 2 * (FP_ONE as int),
            ;
            lemma_tdiv_range((lv as int) * (amount as int), FP_ONE as int, 2 * (FP_ONE as int));
        }
        let m: i64 = mul_fp(lv, amount);
        let factor: i64 = FP_ONE + m;
        let cutoff_param: i64 = self.params.filter_cutoff;
        proof {
            assert(-(20000 * (FP_ONE as int) * (3 * (FP_ONE as int))) <= (cutoff_param as int) * (
            factor as int) <= 20000 * (FP_ONE as int) * (3 * (FP_ONE as int))) by (nonlinear_arith)
                requires
                    0 <= cutoff_param <= 20000 * (FP_ONE as int),
                    -FP_ONE <= factor <= 3 * (FP_ONE as int),
            ;
        }
        let cm: i64 = mul_fp(cutoff_param, factor);
        let cut: i64 = clamp_i64(cm, MIN_CUTOFF_FP, MAX_CUTOFF_FP);
        self.filter.cutoff = cut;
        let out: i64 = self.filter.process(shaped, sr);
        proof {
            let outs: Seq<int> = choose|outs: Seq<int>|
                mix_ok(*old(self), em, outs, mix as int);
            assert(render_ok(*old(self), *self, outs, out as int));
        }
        out
    }

    /// Render a block: `samples` samples, written identically to each of
    /// `channels` output channels. With the note-on flag off the engine is
    /// untouched and every sample is zero; the flag, the note, the parameters and the
    /// sample rate are never changed by rendering.
    pub fn process(&mut self, samples: usize, channels: usize) -> (out: Vec<Vec<i64>>)
        requires
            old(self).inv(),
        ensures
            final(self).inv(),
            exists|mono: Seq<i64>|
                {
                    &&& mono.len() == samples
                    &&& #[trigger] run_ok(*old(self), *final(self), as_trace(mono))
                    &&& forall|c: int| 0 <= c < channels ==> (#[trigger] out@[c])@ == mono
                },
            out@.len() == channels,
            forall|c: int| 0 <= c < channels ==> (#[trigger] out@[c])@.len() == samples,
            forall|c: int, i: int|
                0 <= c < channels && 0 <= i < samples ==> -SAMPLE_CAP <= #[trigger] out@[c]@[i]
                    <= SAMPLE_CAP,
            forall|c: int, i: int|
                0 <= c < channels && 0 <= i < samples ==> #[trigger] out@[c]@[i] == out@[0]@[i],
            !old(self).note_on ==> *final(self) == *old(self),
            !old(self).note_on ==> forall|c: int, i: int|
                0 <= c < channels && 0 <= i < samples ==> #[trigger] out@[c]@[i] == 0,
            final(self).note_on == old(self).note_on,
            final(self).note == old(self).note,
            final(self).params == old(self).params,
            final(self).sample_rate == old(self).sample_rate,
    {
        let mut mono: Vec<i64> = Vec::new();
        let mut i: usize = 0;
        while i < samples
            invariant
                self.inv(),
                i <= samples,
                mono@.len() == i,
                run_ok(*old(self), *self, as_trace(mono@)),
                forall|j: int| 0 <= j < i ==> -SAMPLE_CAP <= #[trigger] mono@[j] <= SAMPLE_CAP,
                !old(self).note_on ==> *self == *old(self),
                !old(self).note_on ==> forall|j: int| 0 <= j < i ==> #[trigger] mono@[j] == 0,
                self.note_on == old(self).note_on,
                self.note == old(self).note,
                self.params == old(self).params,
                self.sample_rate == old(self).sample_rate,
            decreases samples - i,
        {
            let ghost prev = *self;
            let ghost trace = as_trace(mono@);
            let s: i64 = self.render_sample();
            mono.push(s);
            proof {
                assert(sample_step_ok(prev, *self, s as int));
                lemma_run_ok_snoc(*old(self), prev, *self, trace, s as int);
                assert(as_trace(mono@) =~= trace.push(s as int));
            }
            i = i + 1;
        }
        proof {
            assert(run_ok(*old(self), *self, as_trace(mono@)));
        }
        let mut out: Vec<Vec<i64>> = Vec::new();
        let mut c: usize = 0;
        while c < channels
            invariant
                c <= channels,
                out@.len() == c,
                mono@.len() == samples,
                forall|j: int| 0 <= j < c ==> (#[trigger] out@[j])@ == mono@,
            decreases channels - c,
        {
            let copy: Vec<i64> = clone_samples(&mono);
            out.push(copy);
            c = c + 1;
        }
        out
    }
}

impl Default for VoiceEngine {
    /// The same fresh voice as [`VoiceEngine::new`].
    fn default() -> (e: VoiceEngine)
        ensures
            e.inv(),
            e.sample_rate == 44100,
            e.note == 0,
            !e.note_on,
    {
        VoiceEngine::new()
    }
}

/// A plain element-for-element copy of a sample buffer.
fn clone_samples(v: &Vec<i64>) -> (r: Vec<i64>)
    ensures
        r@ == v@,
{
    let mut r: Vec<i64> = Vec::new();
    let mut i: usize = 0;
    while i < v.len()
        invariant
            i <= v@.len(),
            r@ == v@.subrange(0, i as int),
        decreases v@.len() - i,
    {
        r.push(v[i]);
        proof {
            assert(r@ == v@.subrange(0, i + 1 as int));
        }
        i = i + 1;
    }
    proof {
        assert(v@.subrange(0, v@.len() as int) == v@);
    }
    r
}

} // verus!
