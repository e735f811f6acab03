use subsynth::engine::{midi_pitch_to_freq, VoiceEngine};
use subsynth::envelope::Stage;
use subsynth::filter::SAMPLE_CAP;
use subsynth::fx::FP_ONE;
use subsynth::osc::{Oscillator, Waveform};

#[test]
fn midi_pitch_mapping_is_equal_tempered() {
    // A4 (pitch 69) is exactly 440 Hz; octaves are exact doublings.
    assert_eq!(midi_pitch_to_freq(69), 440 * FP_ONE);
    assert_eq!(midi_pitch_to_freq(81), 880 * FP_ONE);
    assert_eq!(midi_pitch_to_freq(57), 220 * FP_ONE);
    assert_eq!(midi_pitch_to_freq(45), 110 * FP_ONE);
    // The top pitch, and a byte above 127 (read as signed, hence very low).
    assert_eq!(midi_pitch_to_freq(127), 53875442487680);
    assert_eq!(midi_pitch_to_freq(255), 33143947292);
}

#[test]
fn new_engine_defaults() {
    let e = VoiceEngine::new();
    assert_eq!(e.sample_rate, 44100);
    assert_eq!(e.note, 0);
    assert!(!e.note_on);
    assert_eq!(e.oscillators.len(), 5);
    assert_eq!(e.oscillators[0].waveform, Waveform::Sine);
    assert_eq!(e.oscillators[1].waveform, Waveform::Saw);
    assert_eq!(e.oscillators[2].waveform, Waveform::Square);
    assert_eq!(e.oscillators[3].waveform, Waveform::Triangle);
    assert_eq!(e.oscillators[4].waveform, Waveform::Noise);
    for o in &e.oscillators {
        assert_eq!(o.phase, 0);
        assert_eq!(o.freq, 440 * FP_ONE);
    }
    assert_eq!(e.envelope.stage, Stage::Idle);
    assert_eq!(e.lfo.phase, 0);
}

#[test]
fn init_resets_sample_rate() {
    let mut e = VoiceEngine::new();
    e.sample_rate = 48000;
    e.init();
    assert_eq!(e.sample_rate, 44100);
}

#[test]
fn note_on_tunes_first_two_oscillators() {
    // Pitch 69: oscillator 0 at exactly 440 Hz, oscillator 1 one percent
    // above (444.4 Hz, within a Q32 quantum); oscillators 2..4 keep their
    // previous 440 Hz.
    let mut e = VoiceEngine::new();
    e.handle_midi(144, 69, 100);
    assert_eq!(e.oscillators[0].freq, 1889785610240);
    assert_eq!(e.oscillators[1].freq, 1908683466342);
    assert_eq!(e.oscillators[2].freq, 440 * FP_ONE);
    assert_eq!(e.oscillators[3].freq, 440 * FP_ONE);
    assert_eq!(e.oscillators[4].freq, 440 * FP_ONE);
    assert_eq!(e.note, 69);
    assert!(e.note_on);
    assert_eq!(e.envelope.stage, Stage::Attack);
    assert_eq!(e.envelope.level, 0);
}

#[test]
fn note_off_releases_only_the_sounding_note() {
    let mut e = VoiceEngine::new();
    e.handle_midi(144, 60, 100);
    assert_eq!(e.envelope.stage, Stage::Attack);
    // A note-off for a different pitch is ignored.
    e.handle_midi(128, 61, 0);
    assert_eq!(e.envelope.stage, Stage::Attack);
    // A note-off for the sounding pitch releases the envelope.
    e.handle_midi(128, 60, 0);
    assert_eq!(e.envelope.stage, Stage::Release);
    assert!(e.note_on);
}

#[test]
fn unknown_status_bytes_are_ignored() {
    let mut e = VoiceEngine::new();
    e.handle_midi(176, 1, 2);
    assert_eq!(e.note, 0);
    assert!(!e.note_on);
    assert_eq!(e.envelope.stage, Stage::Idle);
}

#[test]
fn silent_before_first_note_and_flag_stays_off() {
    let mut e = VoiceEngine::new();
    let out = e.process(64, 2);
    assert_eq!(out.len(), 2);
    for ch in &out {
        assert_eq!(ch.len(), 64);
        for &s in ch.iter() {
            assert_eq!(s, 0);
        }
    }
    assert!(!e.note_on);
    assert_eq!(e.envelope.stage, Stage::Idle);
}

#[test]
fn channels_carry_identical_mono_content() {
    let mut e = VoiceEngine::new();
    e.handle_midi(144, 69, 100);
    let out = e.process(256, 3);
    assert_eq!(out.len(), 3);
    let mut nonzero = false;
    for i in 0..256 {
        assert_eq!(out[0][i], out[1][i]);
        assert_eq!(out[0][i], out[2][i]);
        assert!(out[0][i].abs() <= SAMPLE_CAP);
        if out[0][i] != 0 {
            nonzero = true;
        }
    }
    assert!(nonzero);
}

#[test]
fn note_on_stays_true_after_release_reaches_idle_and_output_dies_out() {
    let mut e = VoiceEngine::new();
    e.handle_midi(144, 69, 100);
    e.process(8000, 1); // attack and decay run their course
    e.handle_midi(128, 69, 0);
    assert_eq!(e.envelope.stage, Stage::Release);
    e.process(60000, 1); // more than the release needs to reach idle
    assert_eq!(e.envelope.stage, Stage::Idle);
    assert_eq!(e.envelope.level, 0);
    // The note-on flag never clears, the engine keeps rendering, and with the
    // envelope idle the filter rings down to exact digital silence.
    assert!(e.note_on);
    let out = e.process(2000, 2);
    assert_eq!(out[0][1999], 0);
    assert_eq!(out[1][1999], 0);
}

#[test]
fn five_square_unison_mix_peaks_at_two_and_a_half() {
    // The mix gain is a fixed one half, not 1/5: five unison oscillators at
    // full scale sum to 5.0 and mix to 2.5.
    let mut e = VoiceEngine::new();
    for i in 0..5 {
        e.oscillators[i] = Oscillator { phase: 0, freq: 440 * FP_ONE, waveform: Waveform::Square };
    }
    let mix = e.mix_oscillators();
    assert_eq!(mix, 5 * FP_ONE / 2);
    assert_eq!(mix, 10737418240);
}

#[test]
fn rendering_is_deterministic_without_the_noise_oscillator() {
    let mut a = VoiceEngine::new();
    let mut b = VoiceEngine::new();
    for e in [&mut a, &mut b] {
        e.oscillators[4] = Oscillator { phase: 0, freq: 440 * FP_ONE, waveform: Waveform::Saw };
        e.handle_midi(144, 69, 100);
    }
    let outa = a.process(512, 1);
    let outb = b.process(512, 1);
    assert_eq!(outa[0], outb[0]);
}
