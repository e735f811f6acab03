//! A monophonic subtractive synthesizer voice engine.
//!
//! The engine turns MIDI note events and six continuous parameters into a
//! stream of audio samples: a five-oscillator bank is mixed, shaped by an
//! ADSR envelope, and run through a one-pole-cascade low-pass filter whose
//! cutoff is modulated by a free-running LFO.
//!
//! Every signal value (sample, phase, level, frequency in Hz, seconds) is a
//! Q32 fixed-point integer: an `i64` holding the real value scaled by
//! [`fx::FP_ONE`] (2^32). All arithmetic is exact integer arithmetic with
//! truncating division, so each function's behaviour is stated precisely in
//! its contract.

pub mod engine;
pub mod envelope;
pub mod filter;
pub mod fx;
pub mod lfo;
pub mod osc;
pub mod params;
