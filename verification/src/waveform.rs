//! Periodic waveform shapes and the oscillator settings that own them.
//!
//! A phase is a position inside one cycle, in raw units of `1/UNIT` cycles,
//! so it always lies in `[0, UNIT)`. Every generated amplitude lies in
//! `[-UNIT, UNIT]`. The sine shape uses Bhaskara's rational approximation
//! `sin x ≈ 16·x·(π−x) / (5·π² − 4·x·(π−x))` on each half cycle, which is
//! exact at the quarter-cycle points and stays within the unit range.

use vstd::prelude::*;

use crate::units::{HALF_UNIT, MAX_FREQUENCY, MAX_SAMPLE_RATE, UNIT};
use crate::units::div_nn;
use crate::ConfigError;

verus! {

/// A periodic waveform shape.
#[derive(Debug, Clone, Copy, PartialEq, Eq, Structural)]
pub enum Waveform {
    Sine,
    Square,
    Sawtooth,
}

/// `p·(HALF_UNIT − p)`, the parabola at the heart of the half-cycle sine
/// approximation; nonnegative for `p` inside the half cycle.
pub open spec fn sine_arch(p: int) -> int {
    p * (HALF_UNIT - p)
}

/// The sine approximation on the first half cycle, scaled by `UNIT`:
/// `UNIT · 16·q / (5·HALF_UNIT² − 4·q)` with `q = sine_arch(p)`.
pub open spec fn half_sine(p: int) -> int {
    (UNIT * (16 * sine_arch(p))) / (5 * (HALF_UNIT * HALF_UNIT) - 4 * sine_arch(p))
}

/// The amplitude a waveform shape generates at a phase in `[0, UNIT)`.
pub open spec fn wave_value(w: Waveform, p: int) -> int {
    match w {
        Waveform::Sine => if p < HALF_UNIT {
            half_sine(p)
        } else {
            -half_sine(p - HALF_UNIT)
        },
        Waveform::Square => if p < HALF_UNIT {
            UNIT as int
        } else {
            -UNIT as int
        },
        Waveform::Sawtooth => 2 * p - UNIT,
    }
}

/// On the half cycle the parabola stays in `[0, HALF_UNIT²/4]` and the
/// approximation stays within the unit amplitude.
pub proof fn lemma_half_sine_bounds(p: int)
    requires
        0 <= p < HALF_UNIT,
    ensures
        0 <= sine_arch(p) <= 62_500_000_000,
        0 <= half_sine(p) <= UNIT,
{
    let q = sine_arch(p);
    assert(0 <= q && 4 * q <= 250_000_000_000) by (nonlinear_arith)
        requires
            0 <= p < 500_000,
            q == p * (500_000 - p),
    ;
    let den = 5 * (HALF_UNIT * HALF_UNIT) - 4 * q;
    let num = UNIT * (16 * q);
    assert(0 < den);
    assert(0 <= num && num <= 1_000_000 * den) by (nonlinear_arith)
        requires
            num == 1_000_000 * (16 * q),
            0 <= q,
            16 * q <= den,
    ;
    vstd::arithmetic::div_mod::lemma_div_pos_is_pos(num, den);
    vstd::arithmetic::div_mod::lemma_div_is_ordered(num, UNIT * den, den);
    vstd::arithmetic::div_mod::lemma_div_multiples_vanish(UNIT as int, den);
    assert(UNIT * den == den * UNIT) by (nonlinear_arith);
}

impl Waveform {
    /// The amplitude of this shape at the given phase.
    ///
    /// Bounded by the unit amplitude for every shape and every phase in
    /// range.
    pub fn gen(&self, phase: i64) -> (r: i64)
        requires
            0 <= phase < UNIT,
        ensures
            r == wave_value(*self, phase as int),
            -UNIT <= r <= UNIT,
    {
        match self {
            Waveform::Sine => {
                if phase < HALF_UNIT {
                    Self::half_sine_exec(phase)
                } else {
                    let v = Self::half_sine_exec(phase - HALF_UNIT);
                    -v
                }
            },
            Waveform::Square => {
                if phase < HALF_UNIT {
                    UNIT
                } else {
                    -UNIT
                }
            },
            Waveform::Sawtooth => 2 * phase - UNIT,
        }
    }

    /// The rational sine approximation on the first half cycle.
    fn half_sine_exec(p: i64) -> (r: i64)
        requires
            0 <= p < HALF_UNIT,
        ensures
            r == half_sine(p as int),
            0 <= r <= UNIT,
    {
        proof {
            lemma_half_sine_bounds(p as int);
        }
        let q: i64 = p * (HALF_UNIT - p);
        let num: i64 = UNIT * (16 * q);
        let den: i64 = 5 * (HALF_UNIT * HALF_UNIT) - 4 * q;
        div_nn(num, den)
    }
}

/// Oscillator settings: the shape, its frequency in millihertz, the engine's
/// sample rate in hertz, and a full-scale amplitude.
#[derive(Debug, Clone, Copy, PartialEq, Eq, Structural)]
pub struct Wave {
    pub waveform: Waveform,
    pub frequency: i64,
    pub sample_rate: i64,
    pub amplitude: i64,
}

impl Wave {
    /// Frequency and sample rate are positive and within machine range.
    pub open spec fn wf(self) -> bool {
        &&& 1 <= self.frequency <= MAX_FREQUENCY
        &&& 1 <= self.sample_rate <= MAX_SAMPLE_RATE
    }

    /// Builds oscillator settings, rejecting a non-positive or oversized
    /// frequency or sample rate; the frequency is checked first.
    pub fn new(frequency: i64, sample_rate: i64, waveform: Waveform) -> (r: Result<
        Wave,
        ConfigError,
    >)
        ensures
            (1 <= frequency <= MAX_FREQUENCY && 1 <= sample_rate <= MAX_SAMPLE_RATE) <==> r is Ok,
            !(1 <= frequency <= MAX_FREQUENCY) ==> r == Err::<Wave, ConfigError>(
                ConfigError::FrequencyOutOfRange,
            ),
            1 <= frequency <= MAX_FREQUENCY ==> (r matches Err(e) ==> e
                == ConfigError::SampleRateOutOfRange),
            r matches Ok(w) ==> {
                &&& w.wf()
                &&& w.waveform == waveform
                &&& w.frequency == frequency
                &&& w.sample_rate == sample_rate
                &&& w.amplitude == UNIT
            },
    {
        if frequency < 1 || frequency > MAX_FREQUENCY {
            Err(ConfigError::FrequencyOutOfRange)
        } else if sample_rate < 1 || sample_rate > MAX_SAMPLE_RATE {
            Err(ConfigError::SampleRateOutOfRange)
        } else {
            Ok(
                Wave {
                    waveform,
                    frequency,
                    sample_rate,
                    amplitude: UNIT,
                },
            )
        }
    }

    /// The amplitude of the configured shape at the given phase.
    pub fn apply(&self, phase: i64) -> (r: i64)
        requires
            0 <= phase < UNIT,
        ensures
            r == wave_value(self.waveform, phase as int),
            -UNIT <= r <= UNIT,
    {
        self.waveform.gen(phase)
    }

    /// Swaps the shape; every other setting, and so the phase continuity of
    /// the oscillator, is untouched.
    pub fn set_waveform(&mut self, waveform: Waveform)
        ensures
            *final(self) == (Wave { waveform, ..*old(self) }),
    {
        self.waveform = waveform;
    }

    /// Retunes the oscillator, rejecting a frequency outside range; on
    /// rejection the settings are unchanged.
    pub fn set_frequency(&mut self, frequency: i64) -> (r: Result<(), ConfigError>)
        ensures
            (1 <= frequency <= MAX_FREQUENCY) <==> r is Ok,
            r is Ok ==> *final(self) == (Wave { frequency, ..*old(self) }),
            r matches Err(e) ==> e == ConfigError::FrequencyOutOfRange && *final(self) == *old(
                self,
            ),
    {
        if frequency < 1 || frequency > MAX_FREQUENCY {
            Err(ConfigError::FrequencyOutOfRange)
        } else {
            self.frequency = frequency;
            Ok(())
        }
    }
}

} // verus!
