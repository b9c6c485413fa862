//! A single-voice software synthesizer core, in fixed-point arithmetic.
//!
//! Signal amplitudes, envelope gains and filter coefficients are integers
//! scaled by one million ([`units::UNIT`]); times are in microseconds and
//! frequencies in millihertz. An [`engine::Engine`] combines an oscillator
//! ([`waveform::Wave`]), an envelope ([`adsr::ADSR`]), a note-trigger state
//! machine ([`note::NoteState`]) and a chain of one-pole filters
//! ([`filter::FilterChain`]) into a per-sample pipeline that fills blocks of
//! samples on demand. A surrounding program owns the audio device and the
//! control surface; the engine itself never blocks and never panics.

use vstd::prelude::*;

pub mod adsr;
pub mod engine;
pub mod filter;
pub mod note;
pub mod units;
pub mod waveform;

verus! {

/// A parameter rejected at construction or reconfiguration time.
///
/// The per-sample pipeline itself is total: every error of the library is one
/// of these, raised before a value enters the pipeline.
#[derive(Debug, Clone, Copy, PartialEq, Eq, Structural)]
pub enum ConfigError {
    /// A frequency outside `1 ..= MAX_FREQUENCY` millihertz.
    FrequencyOutOfRange,
    /// A sample rate outside `1 ..= MAX_SAMPLE_RATE` hertz.
    SampleRateOutOfRange,
    /// A filter cutoff outside `1 ..= MAX_CUTOFF` millihertz.
    CutoffOutOfRange,
}

} // verus!
