//! The audio engine: the per-sample pipeline and the parameter store it
//! reads.
//!
//! One engine owns the oscillator settings, the envelope, the note state,
//! the filter chain, the phase accumulator and a trace of the last rendered
//! block. [`Engine::render_block`] fills a block of samples in a single
//! call, advancing all internal state by exactly one sample period per slot;
//! a surrounding program gives the render thread exclusive access for the
//! duration of one block and lets a control surface mutate parameters
//! between blocks through the setter methods. Every per-sample step is
//! described exactly by the pure functions [`step_out`] and [`step_state`]
//! over the ghost [`EngineModel`].

use vstd::prelude::*;

use crate::adsr::{clamp_gain, clamp_segment, envelope_gain, ADSR};
use crate::filter::{chain_result, chain_stepped, fresh_filter, FilterChain, FilterTypes, FilterUnit};
use crate::note::{sat_time, NoteState};
use crate::units::{div_nn, div_tz, rem_nn, tz_div};
use crate::units::{MAX_CUTOFF, MAX_FREQUENCY, MAX_SAMPLE_RATE, MAX_SEGMENT, MAX_TIME, UNIT};
use crate::waveform::{wave_value, Wave, Waveform};
use crate::ConfigError;

verus! {

/// The mathematical state of an engine: every parameter the per-sample
/// pipeline reads and every piece of state it advances.
#[verifier::ext_equal]
pub ghost struct EngineModel {
    pub waveform: Waveform,
    /// Oscillator frequency, in millihertz.
    pub frequency: int,
    /// Sample rate, in hertz, fixed for the engine's lifetime.
    pub sample_rate: int,
    /// Envelope segments in microseconds and sustain gain in `[0, UNIT]`.
    pub attack: int,
    pub decay: int,
    pub sustain: int,
    pub release: int,
    /// Whether the note is sounding, and microseconds since it changed.
    pub active: bool,
    pub time: int,
    /// Sub-microsecond remainder of the note clock, in units of `1/rate` µs.
    pub tick_rem: int,
    /// Oscillator phase, in `[0, UNIT)` raw cycle units.
    pub phase: int,
    /// The filter chain's states, in processing order.
    pub filters: Seq<FilterUnit>,
}

/// Every field of a model is within its range and every filter keeps its
/// invariant.
pub open spec fn model_wf(m: EngineModel) -> bool {
    &&& 1 <= m.frequency <= MAX_FREQUENCY
    &&& 1 <= m.sample_rate <= MAX_SAMPLE_RATE
    &&& 0 <= m.attack <= MAX_SEGMENT
    &&& 0 <= m.decay <= MAX_SEGMENT
    &&& 0 <= m.sustain <= UNIT
    &&& 0 <= m.release <= MAX_SEGMENT
    &&& 0 <= m.time <= MAX_TIME
    &&& 0 <= m.tick_rem < m.sample_rate
    &&& 0 <= m.phase < UNIT
    &&& forall|i: int| 0 <= i < m.filters.len() ==> (#[trigger] m.filters[i]).wf()
}

/// The phase advance for one sample: `UNIT · frequency / (1000 · rate)`
/// raw cycle units, frequency being in millihertz.
pub open spec fn phase_step(frequency: int, sample_rate: int) -> int {
    (UNIT * frequency) / (1000 * sample_rate)
}

/// The phase after one sample, wrapped back into `[0, UNIT)`.
pub open spec fn next_phase(phase: int, frequency: int, sample_rate: int) -> int {
    (phase + phase_step(frequency, sample_rate)) % (UNIT as int)
}

/// Wrapping keeps the phase inside one cycle for any nonnegative frequency
/// and positive sample rate, from any in-range phase — so it does after any
/// number of advances.
pub proof fn lemma_phase_stays_in_cycle(phase: int, frequency: int, sample_rate: int)
    requires
        0 <= phase < UNIT,
        0 <= frequency,
        1 <= sample_rate,
    ensures
        0 <= next_phase(phase, frequency, sample_rate) < UNIT,
{
    assert(0 <= UNIT * frequency) by (nonlinear_arith)
        requires
            UNIT == 1_000_000,
            0 <= frequency,
    ;
    vstd::arithmetic::div_mod::lemma_div_pos_is_pos(UNIT * frequency, 1000 * sample_rate);
    vstd::arithmetic::div_mod::lemma_mod_bound(
        phase + phase_step(frequency, sample_rate),
        UNIT as int,
    );
}

/// The sample one pipeline step emits from state `m`: the waveform at the
/// current phase, scaled by the envelope gain, fed through the filter
/// chain.
pub open spec fn step_out(m: EngineModel) -> int {
    let raw = wave_value(m.waveform, m.phase);
    let gain = envelope_gain(m.attack, m.decay, m.sustain, m.release, m.time, m.active);
    let shaped = tz_div(raw * gain, UNIT as int);
    chain_result(m.filters, shaped)
}

/// The state after one pipeline step: every filter's history advanced by
/// the shaped sample, the phase advanced and wrapped, and the note clock
/// advanced by this sample's whole microseconds, the fractional part
/// carrying over in `tick_rem`.
pub open spec fn step_state(m: EngineModel) -> EngineModel {
    let raw = wave_value(m.waveform, m.phase);
    let gain = envelope_gain(m.attack, m.decay, m.sustain, m.release, m.time, m.active);
    let shaped = tz_div(raw * gain, UNIT as int);
    let ticks = UNIT + m.tick_rem;
    EngineModel {
        filters: chain_stepped(m.filters, shaped),
        phase: next_phase(m.phase, m.frequency, m.sample_rate),
        time: sat_time(m.time + ticks / m.sample_rate),
        tick_rem: ticks % m.sample_rate,
        ..m
    }
}

/// The state after `k` pipeline steps.
pub open spec fn run_state(m: EngineModel, k: nat) -> EngineModel
    decreases k,
{
    if k == 0 {
        m
    } else {
        step_state(run_state(m, (k - 1) as nat))
    }
}

/// One pipeline step keeps the model well-formed; in particular the phase
/// stays inside one cycle.
pub proof fn lemma_step_keeps_wf(m: EngineModel)
    requires
        model_wf(m),
    ensures
        model_wf(step_state(m)),
{
    let raw = wave_value(m.waveform, m.phase);
    let gain = envelope_gain(m.attack, m.decay, m.sustain, m.release, m.time, m.active);
    let shaped = tz_div(raw * gain, UNIT as int);
    lemma_phase_stays_in_cycle(m.phase, m.frequency, m.sample_rate);
    let ticks = UNIT + m.tick_rem;
    vstd::arithmetic::div_mod::lemma_div_pos_is_pos(ticks, m.sample_rate);
    vstd::arithmetic::div_mod::lemma_mod_bound(ticks, m.sample_rate);
    crate::filter::lemma_chain_stepped_wf(m.filters, shaped);
}

/// Any number of pipeline steps keeps the model well-formed: the phase is
/// always inside one cycle, the note clock nonnegative, and every filter's
/// history bounded.
pub proof fn lemma_run_keeps_wf(m: EngineModel, k: nat)
    requires
        model_wf(m),
    ensures
        model_wf(run_state(m, k)),
    decreases k,
{
    if k > 0 {
        lemma_run_keeps_wf(m, (k - 1) as nat);
        lemma_step_keeps_wf(run_state(m, (k - 1) as nat));
    }
}

/// A well-formed engine has a well-formed model, so the run-level laws
/// above speak about every engine this library can build.
pub proof fn lemma_engine_model_wf(e: Engine)
    requires
        e.wf(),
    ensures
        model_wf(e.model()),
{
}

/// The synthesis engine: the shared parameter store and the per-sample
/// pipeline over it.
#[derive(Debug, Clone)]
pub struct Engine {
    pub wave: Wave,
    pub adsr: ADSR,
    pub note: NoteState,
    pub chain: FilterChain,
    /// Oscillator phase accumulator, in `[0, UNIT)`.
    pub phase: i64,
    /// Fractional microseconds of the note clock not yet handed out, in
    /// units of `1/sample_rate` µs.
    pub tick_rem: i64,
    /// The samples of the most recently rendered block, for display.
    pub trace: Vec<i64>,
}

impl Engine {
    /// Every component keeps its invariant and the accumulators are in
    /// range.
    pub open spec fn wf(self) -> bool {
        &&& self.wave.wf()
        &&& self.adsr.wf()
        &&& self.note.wf()
        &&& self.chain.wf()
        &&& 0 <= self.phase < UNIT
        &&& 0 <= self.tick_rem < self.wave.sample_rate
    }

    /// The mathematical state this engine is in.
    pub open spec fn model(self) -> EngineModel {
        EngineModel {
            waveform: self.wave.waveform,
            frequency: self.wave.frequency as int,
            sample_rate: self.wave.sample_rate as int,
            attack: self.adsr.attack as int,
            decay: self.adsr.decay as int,
            sustain: self.adsr.sustain as int,
            release: self.adsr.release as int,
            active: self.note.active,
            time: self.note.time as int,
            tick_rem: self.tick_rem as int,
            phase: self.phase as int,
            filters: self.chain.filters@,
        }
    }

    /// Builds an engine at the given sample rate with the default voice: a
    /// 440 Hz sine, a gentle envelope, no filters, and a silent note. A
    /// non-positive or oversized sample rate is rejected.
    pub fn new(sample_rate: i64) -> (r: Result<Engine, ConfigError>)
        ensures
            (1 <= sample_rate <= MAX_SAMPLE_RATE) <==> r is Ok,
            r matches Err(e) ==> e == ConfigError::SampleRateOutOfRange,
            r matches Ok(engine) ==> {
                &&& engine.wf()
                &&& engine.wave.waveform == Waveform::Sine
                &&& engine.wave.frequency == 440_000
                &&& engine.wave.sample_rate == sample_rate
                &&& engine.adsr == (ADSR {
                    attack: 800_000,
                    decay: 1_200_000,
                    sustain: 500_000,
                    release: 800_000,
                })
                &&& !engine.note.active
                &&& engine.note.time == 0
                &&& engine.chain.filters@.len() == 0
                &&& engine.phase == 0
                &&& engine.tick_rem == 0
                &&& engine.trace@.len() == 0
            },
    {
        match Wave::new(440_000, sample_rate, Waveform::Sine) {
            Err(e) => Err(e),
            Ok(wave) => Ok(
                Engine {
                    wave,
                    adsr: ADSR::new(800_000, 1_200_000, 500_000, 800_000),
                    note: NoteState::default(),
                    chain: FilterChain::new(),
                    phase: 0,
                    tick_rem: 0,
                    trace: Vec::new(),
                },
            ),
        }
    }

    /// Fills a block of `n` samples, in order, advancing the whole pipeline
    /// by exactly one sample period per slot: sample `i` is `step_out` of
    /// the state after `i` steps, the final state is the one after `n`
    /// steps, and the trace holds exactly this block.
    pub fn render_block(&mut self, n: usize) -> (out: Vec<i64>)
        requires
            old(self).wf(),
        ensures
            final(self).wf(),
            out@.len() == n,
            final(self).model() == run_state(old(self).model(), n as nat),
            forall|i: int|
                0 <= i < n ==> (#[trigger] out@[i]) as int == step_out(
                    run_state(old(self).model(), i as nat),
                ),
            final(self).trace@ == out@,
    {
        let ghost m0 = self.model();
        let mut out: Vec<i64> = Vec::new();
        self.trace = Vec::new();
        let mut k: usize = 0;
        while k < n
            invariant
                self.wf(),
                0 <= k <= n,
                self.model() == run_state(m0, k as nat),
                out@.len() == k,
                forall|i: int|
                    0 <= i < k ==> (#[trigger] out@[i]) as int == step_out(run_state(m0, i as nat)),
                self.trace@ == out@,
            decreases n - k,
        {
            let ghost mk = self.model();
            let raw = self.wave.apply(self.phase);
            let gain = self.adsr.apply(&self.note);
            proof {
                assert(-1_000_000_000_000 <= raw * gain <= 1_000_000_000_000) by (nonlinear_arith)
                    requires
                        -1_000_000 <= raw <= 1_000_000,
                        0 <= gain <= 1_000_000,
                ;
            }
            let shaped = div_tz(raw * gain, UNIT);
            let sample = self.chain.process(shaped);
            self.trace.push(sample);
            out.push(sample);
            proof {
                assert(0 <= UNIT * self.wave.frequency <= 1_000_000_000_000_000)
                    by (nonlinear_arith)
                    requires
                        UNIT == 1_000_000,
                        1 <= self.wave.frequency <= 1_000_000_000,
                ;
            }
            let pstep = div_nn(UNIT * self.wave.frequency, 1000 * self.wave.sample_rate);
            self.phase = rem_nn(self.phase + pstep, UNIT);
            let ticks = UNIT + self.tick_rem;
            let dt = div_nn(ticks, self.wave.sample_rate);
            self.tick_rem = rem_nn(ticks, self.wave.sample_rate);
            self.note.update(dt);
            k = k + 1;
            proof {
                assert(self.model() =~= step_state(mk));
            }
        }
        out
    }

    /// Swaps the waveform shape; phase continuity is preserved, so the
    /// change cannot click, though the shape itself jumps.
    pub fn set_waveform(&mut self, waveform: Waveform)
        requires
            old(self).wf(),
        ensures
            final(self).wf(),
            final(self).model() == (EngineModel { waveform, ..old(self).model() }),
            final(self).trace@ == old(self).trace@,
    {
        self.wave.set_waveform(waveform);
        proof {
            assert(self.model() =~= (EngineModel { waveform, ..old(self).model() }));
        }
    }

    /// Retunes the oscillator without resetting the phase; a frequency
    /// outside range is rejected and nothing changes.
    pub fn set_frequency(&mut self, frequency: i64) -> (r: Result<(), ConfigError>)
        requires
            old(self).wf(),
        ensures
            final(self).wf(),
            (1 <= frequency <= MAX_FREQUENCY) <==> r is Ok,
            r is Ok ==> final(self).model() == (EngineModel {
                frequency: frequency as int,
                ..old(self).model()
            }),
            r matches Err(e) ==> e == ConfigError::FrequencyOutOfRange && *final(self) == *old(
                self,
            ),
            final(self).trace@ == old(self).trace@,
    {
        let r = self.wave.set_frequency(frequency);
        proof {
            if r is Ok {
                assert(self.model() =~= (EngineModel {
                    frequency: frequency as int,
                    ..old(self).model()
                }));
            }
        }
        r
    }

    /// Replaces the envelope's attack time, clipped into range.
    pub fn set_attack(&mut self, attack: i64)
        requires
            old(self).wf(),
        ensures
            final(self).wf(),
            final(self).model() == (EngineModel {
                attack: clamp_segment(attack as int),
                ..old(self).model()
            }),
            final(self).trace@ == old(self).trace@,
    {
        self.adsr.set_attack(attack);
        proof {
            assert(self.model() =~= (EngineModel {
                attack: clamp_segment(attack as int),
                ..old(self).model()
            }));
        }
    }

    /// Replaces the envelope's decay time, clipped into range.
    pub fn set_decay(&mut self, decay: i64)
        requires
            old(self).wf(),
        ensures
            final(self).wf(),
            final(self).model() == (EngineModel {
                decay: clamp_segment(decay as int),
                ..old(self).model()
            }),
            final(self).trace@ == old(self).trace@,
    {
        self.adsr.set_decay(decay);
        proof {
            assert(self.model() =~= (EngineModel {
                decay: clamp_segment(decay as int),
                ..old(self).model()
            }));
        }
    }

    /// Replaces the envelope's sustain gain, clipped into range.
    pub fn set_sustain(&mut self, sustain: i64)
        requires
            old(self).wf(),
        ensures
            final(self).wf(),
            final(self).model() == (EngineModel {
                sustain: clamp_gain(sustain as int),
                ..old(self).model()
            }),
            final(self).trace@ == old(self).trace@,
    {
        self.adsr.set_sustain(sustain);
        proof {
            assert(self.model() =~= (EngineModel {
                sustain: clamp_gain(sustain as int),
                ..old(self).model()
            }));
        }
    }

    /// Replaces the envelope's release time, clipped into range.
    pub fn set_release(&mut self, release: i64)
        requires
            old(self).wf(),
        ensures
            final(self).wf(),
            final(self).model() == (EngineModel {
                release: clamp_segment(release as int),
                ..old(self).model()
            }),
            final(self).trace@ == old(self).trace@,
    {
        self.adsr.set_release(release);
        proof {
            assert(self.model() =~= (EngineModel {
                release: clamp_segment(release as int),
                ..old(self).model()
            }));
        }
    }

    /// A key went down: the note sounds and its clock restarts.
    pub fn note_on(&mut self)
        requires
            old(self).wf(),
        ensures
            final(self).wf(),
            final(self).model() == (EngineModel { active: true, time: 0, ..old(self).model() }),
            final(self).trace@ == old(self).trace@,
    {
        self.note.note_on();
        proof {
            assert(self.model() =~= (EngineModel { active: true, time: 0, ..old(self).model() }));
        }
    }

    /// A key came up: the note releases and its clock restarts.
    pub fn note_off(&mut self)
        requires
            old(self).wf(),
        ensures
            final(self).wf(),
            final(self).model() == (EngineModel { active: false, time: 0, ..old(self).model() }),
            final(self).trace@ == old(self).trace@,
    {
        self.note.note_off();
        proof {
            assert(self.model() =~= (EngineModel { active: false, time: 0, ..old(self).model() }));
        }
    }

    /// Appends a fresh filter of the given kind, built at the engine's
    /// sample rate; a cutoff outside range is rejected and nothing changes.
    pub fn add_filter(&mut self, kind: FilterTypes, cutoff: i64) -> (r: Result<(), ConfigError>)
        requires
            old(self).wf(),
        ensures
            final(self).wf(),
            (1 <= cutoff <= MAX_CUTOFF) <==> r is Ok,
            r is Ok ==> final(self).model() == (EngineModel {
                filters: old(self).model().filters.push(
                    fresh_filter(kind, cutoff, old(self).wave.sample_rate),
                ),
                ..old(self).model()
            }),
            r matches Err(e) ==> e == ConfigError::CutoffOutOfRange && *final(self) == *old(self),
            final(self).trace@ == old(self).trace@,
    {
        match FilterUnit::build(kind, cutoff, self.wave.sample_rate) {
            Ok(f) => {
                self.chain.add(f);
                proof {
                    assert(self.model() =~= (EngineModel {
                        filters: old(self).model().filters.push(
                            fresh_filter(kind, cutoff, old(self).wave.sample_rate),
                        ),
                        ..old(self).model()
                    }));
                }
                Ok(())
            },
            Err(e) => Err(e),
        }
    }

    /// Removes the filter at `index` from the chain, returning whether
    /// anything was removed; the other filters keep their order and state.
    pub fn remove_filter(&mut self, index: usize) -> (removed: bool)
        requires
            old(self).wf(),
        ensures
            final(self).wf(),
            removed <==> index < old(self).model().filters.len(),
            removed ==> final(self).model() == (EngineModel {
                filters: old(self).model().filters.remove(index as int),
                ..old(self).model()
            }),
            !removed ==> final(self).model() == old(self).model(),
            final(self).trace@ == old(self).trace@,
    {
        let removed = self.chain.remove(index);
        proof {
            if removed {
                assert(self.model() =~= (EngineModel {
                    filters: old(self).model().filters.remove(index as int),
                    ..old(self).model()
                }));
            } else {
                assert(self.model() =~= old(self).model());
            }
        }
        removed
    }

    /// The number of filters in the chain.
    pub fn filter_count(&self) -> (n: usize)
        ensures
            n == self.model().filters.len(),
    {
        self.chain.len()
    }
}

} // verus!
