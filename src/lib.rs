//! A monophonic FM synthesizer engine in fixed-point arithmetic: a carrier and
//! modulator oscillator pair, an ADSR envelope, their composition into a
//! per-sample generator, a note sequencer, and the preset and melody tables.
use vstd::prelude::*;

pub mod catalog;
pub mod envelope;
pub mod notes;
pub mod params;
pub mod sequencer;
pub mod oscillator;
pub mod synth;
pub mod tables;
pub mod text;

verus! {

/// Fixed-point value of 1.0 for envelope levels, waveforms and audio samples.
pub const UNIT: u64 = 1_000_000;

/// Fixed-point value of 1.0 for sustain levels, amplitudes and modulation indices.
pub const MILLI: u64 = 1000;

} // verus!
