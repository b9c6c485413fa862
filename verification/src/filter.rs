//! One-pole filters and the ordered chain that applies them in sequence.
//!
//! Each filter is a first-order recurrence over one sample of history with a
//! coefficient `alpha` in `[0, UNIT)` derived from its cutoff:
//! `alpha = dt / (rc + dt)` with `rc = 1/(2π·cutoff)` and `dt` one sample
//! period, which reduces to the integer formula in [`alpha_spec`]. A chain
//! clips the value handed to each filter into `[-AMP_LIMIT, AMP_LIMIT]` — a
//! range far beyond full-scale audio, so the clip is inert for real signals —
//! which keeps every recurrence inside `i64` no matter how many filters the
//! control surface stacks up.

use vstd::prelude::*;

use crate::units::{AMP_LIMIT, MAX_CUTOFF, MAX_SAMPLE_RATE, TWO_PI_DEN, TWO_PI_NUM, UNIT};
use crate::units::{clip, clip_spec, div_nn, div_tz, mag, tz_div};
use crate::units::{lemma_tz_div_bound, lemma_tz_div_close};
use crate::ConfigError;

verus! {

/// The closed set of filter kinds.
#[derive(Debug, Clone, Copy, PartialEq, Eq, Structural)]
pub enum FilterTypes {
    High,
    Low,
}

/// The filter coefficient for a cutoff in millihertz at a sample rate in
/// hertz: `UNIT · 2π·f / (2π·f + rate)` with `2π ≈ 710/113`, every quantity
/// brought to a common denominator of integers.
pub open spec fn alpha_spec(cutoff: int, sample_rate: int) -> int {
    (UNIT * (TWO_PI_NUM * cutoff)) / (TWO_PI_NUM * cutoff + (TWO_PI_DEN * 1000) * sample_rate)
}

/// For any in-range cutoff and sample rate the coefficient lies in
/// `[0, UNIT)`: the recurrences below never amplify their convex weights.
pub proof fn lemma_alpha_in_range(cutoff: int, sample_rate: int)
    requires
        1 <= cutoff <= MAX_CUTOFF,
        1 <= sample_rate <= MAX_SAMPLE_RATE,
    ensures
        0 <= alpha_spec(cutoff, sample_rate) < UNIT,
{
    let f = TWO_PI_NUM * cutoff;
    let r = (TWO_PI_DEN * 1000) * sample_rate;
    let num = UNIT * f;
    let den = f + r;
    assert(0 <= num && 0 < den && num <= den * (1_000_000 - 1) + (den - 1)) by (nonlinear_arith)
        requires
            f == 710 * cutoff,
            r == 113_000 * sample_rate,
            1 <= cutoff,
            1 <= sample_rate,
            num == 1_000_000 * f,
            den == f + r,
    ;
    vstd::arithmetic::div_mod::lemma_div_pos_is_pos(num, den);
    vstd::arithmetic::div_mod::lemma_div_is_ordered(num, den * (UNIT - 1) + (den - 1), den);
    vstd::arithmetic::div_mod::lemma_div_multiples_vanish_fancy(UNIT - 1, den - 1, den);
}

/// The coefficient comes arbitrarily close to `UNIT` as the cutoff grows:
/// whenever `m · 2π·cutoff` dominates `UNIT · rate`, the coefficient is
/// within `m + 1` raw units of `UNIT`. A low-pass with such a coefficient is
/// within rounding of the identity transform (see
/// [`lemma_lowpass_near_identity`]).
pub proof fn lemma_alpha_near_unit(cutoff: int, sample_rate: int, m: int)
    requires
        1 <= cutoff <= MAX_CUTOFF,
        1 <= sample_rate <= MAX_SAMPLE_RATE,
        1 <= m,
        m * (TWO_PI_NUM * cutoff) >= UNIT * ((TWO_PI_DEN * 1000) * sample_rate),
    ensures
        alpha_spec(cutoff, sample_rate) >= UNIT - m - 1,
{
    let f = TWO_PI_NUM * cutoff;
    let r = (TWO_PI_DEN * 1000) * sample_rate;
    let num = UNIT * f;
    let den = f + r;
    assert(0 < den && (1_000_000 - m - 1) * den <= num) by (nonlinear_arith)
        requires
            f == 710 * cutoff,
            r == 113_000 * sample_rate,
            1 <= cutoff,
            1 <= sample_rate,
            num == 1_000_000 * f,
            den == f + r,
            1 <= m,
            m * f >= 1_000_000 * r,
    ;
    vstd::arithmetic::div_mod::lemma_div_is_ordered((UNIT - m - 1) * den, num, den);
    vstd::arithmetic::div_mod::lemma_div_multiples_vanish(UNIT - m - 1, den);
    assert((UNIT - m - 1) * den == den * (UNIT - m - 1)) by (nonlinear_arith);
}

/// The coefficient comes arbitrarily close to zero as the cutoff shrinks:
/// whenever `UNIT · 2π·cutoff` is at most `m · rate`, the coefficient is at
/// most `m`. A high-pass with a zero coefficient is the zero transform (see
/// [`lemma_highpass_vanishes`]).
pub proof fn lemma_alpha_near_zero(cutoff: int, sample_rate: int, m: int)
    requires
        1 <= cutoff <= MAX_CUTOFF,
        1 <= sample_rate <= MAX_SAMPLE_RATE,
        0 <= m,
        UNIT * (TWO_PI_NUM * cutoff) <= m * ((TWO_PI_DEN * 1000) * sample_rate),
    ensures
        alpha_spec(cutoff, sample_rate) <= m,
{
    let f = TWO_PI_NUM * cutoff;
    let r = (TWO_PI_DEN * 1000) * sample_rate;
    let num = UNIT * f;
    let den = f + r;
    assert(0 < den && 0 <= num && num <= m * den) by (nonlinear_arith)
        requires
            f == 710 * cutoff,
            r == 113_000 * sample_rate,
            1 <= cutoff,
            1 <= sample_rate,
            num == 1_000_000 * f,
            den == f + r,
            0 <= m,
            num <= m * r,
    ;
    vstd::arithmetic::div_mod::lemma_div_is_ordered(num, m * den, den);
    vstd::arithmetic::div_mod::lemma_div_multiples_vanish(m, den);
    assert(m * den == den * m) by (nonlinear_arith);
    vstd::arithmetic::div_mod::lemma_div_pos_is_pos(num, den);
}

/// The capability every one-pole filter offers: construction from a cutoff,
/// retuning, and processing one sample while carrying one sample of history.
pub trait Filter: Sized {
    /// The filter's internal invariant: parameters in range, the coefficient
    /// derived from them, and the history small enough that the next
    /// recurrence fits in `i64`.
    spec fn wf(&self) -> bool;

    /// The configured cutoff, in millihertz.
    spec fn cutoff_of(&self) -> int;

    /// The sample rate fixed at construction, in hertz.
    spec fn sample_rate_of(&self) -> int;

    /// The derived coefficient.
    spec fn alpha_of(&self) -> int;

    /// The carried history, as `(previous input, previous output)`.
    spec fn history_of(&self) -> (int, int);

    /// The filter after processing one sample, and the sample it emits.
    spec fn step_spec(&self, x: int) -> (Self, int);

    /// Builds a filter with cleared history, rejecting a cutoff or sample
    /// rate outside range; the cutoff is checked first.
    fn new(cutoff: i64, sample_rate: i64) -> (r: Result<Self, ConfigError>)
        ensures
            (1 <= cutoff <= MAX_CUTOFF && 1 <= sample_rate <= MAX_SAMPLE_RATE) <==> r is Ok,
            !(1 <= cutoff <= MAX_CUTOFF) ==> (r matches Err(e) ==> e
                == ConfigError::CutoffOutOfRange),
            1 <= cutoff <= MAX_CUTOFF ==> (r matches Err(e) ==> e
                == ConfigError::SampleRateOutOfRange),
            r matches Ok(f) ==> {
                &&& f.wf()
                &&& f.cutoff_of() == cutoff
                &&& f.sample_rate_of() == sample_rate
                &&& f.alpha_of() == alpha_spec(cutoff as int, sample_rate as int)
                &&& f.history_of() == (0int, 0int)
            },
    ;

    /// Retunes the cutoff and recomputes the coefficient; the history is
    /// deliberately kept, so retuning mid-note cannot click. Rejects a
    /// cutoff outside range, leaving the filter unchanged.
    fn set_cutoff(&mut self, cutoff: i64) -> (r: Result<(), ConfigError>)
        requires
            old(self).wf(),
        ensures
            final(self).wf(),
            (1 <= cutoff <= MAX_CUTOFF) <==> r is Ok,
            r matches Err(e) ==> e == ConfigError::CutoffOutOfRange && *final(self) == *old(self),
            r is Ok ==> {
                &&& final(self).cutoff_of() == cutoff
                &&& final(self).sample_rate_of() == old(self).sample_rate_of()
                &&& final(self).alpha_of() == alpha_spec(
                    cutoff as int,
                    old(self).sample_rate_of(),
                )
                &&& final(self).history_of() == old(self).history_of()
            },
    ;

    /// Processes one sample through the recurrence: the new state and the
    /// output are exactly `step_spec`, and the output magnitude is bounded.
    fn apply(&mut self, input: i64) -> (out: i64)
        requires
            old(self).wf(),
            mag(input as int) <= AMP_LIMIT,
        ensures
            final(self).wf(),
            (*final(self), out as int) == old(self).step_spec(input as int),
            mag(out as int) <= 2 * AMP_LIMIT + UNIT,
    ;
}

/// A one-pole high-pass filter:
/// `y = alpha · (prev_output + x - prev_input) / UNIT`.
#[derive(Debug, Clone, Copy, PartialEq, Eq, Structural)]
pub struct HighPassFilter {
    pub cutoff: i64,
    pub sample_rate: i64,
    pub prev_input: i64,
    pub prev_output: i64,
    pub alpha: i64,
}

/// A one-pole low-pass filter:
/// `y = (alpha · x + (UNIT - alpha) · prev_output) / UNIT`.
#[derive(Debug, Clone, Copy, PartialEq, Eq, Structural)]
pub struct LowPassFilter {
    pub cutoff: i64,
    pub sample_rate: i64,
    pub prev_input: i64,
    pub prev_output: i64,
    pub alpha: i64,
}

/// The shared coefficient computation.
fn calculate_alpha(cutoff: i64, sample_rate: i64) -> (r: i64)
    requires
        1 <= cutoff <= MAX_CUTOFF,
        1 <= sample_rate <= MAX_SAMPLE_RATE,
    ensures
        r == alpha_spec(cutoff as int, sample_rate as int),
        0 <= r < UNIT,
{
    proof {
        lemma_alpha_in_range(cutoff as int, sample_rate as int);
        assert(0 <= (TWO_PI_DEN * 1000) * sample_rate <= 113_000_000_000) by (nonlinear_arith)
            requires
                TWO_PI_DEN == 113,
                1 <= sample_rate <= 1_000_000,
        ;
        assert(0 <= UNIT * (TWO_PI_NUM * cutoff) <= 710_000_000_000_000_000) by (nonlinear_arith)
            requires
                UNIT == 1_000_000,
                TWO_PI_NUM == 710,
                1 <= cutoff <= 1_000_000_000,
        ;
    }
    let num = UNIT * (TWO_PI_NUM * cutoff);
    let den = TWO_PI_NUM * cutoff + (TWO_PI_DEN * 1000) * sample_rate;
    div_nn(num, den)
}

/// The high-pass recurrence keeps its own invariant: with a convex
/// coefficient, an input within `AMP_LIMIT` and the running difference
/// `input − output` within `AMP_LIMIT + UNIT`, the next difference stays
/// within `AMP_LIMIT + UNIT` and the output within `2·AMP_LIMIT + UNIT`.
proof fn lemma_high_recurrence(a: int, x: int, s: int, y: int)
    requires
        0 <= a < UNIT,
        mag(x) <= AMP_LIMIT,
        mag(s) <= AMP_LIMIT + UNIT,
        y == tz_div(a * (x - s), UNIT as int),
    ensures
        mag(x - y) <= AMP_LIMIT + UNIT,
        mag(y) <= 2 * AMP_LIMIT + UNIT,
{
    let u = UNIT as int;
    let n = a * (x - s);
    lemma_tz_div_close(n, u);
    let e = y * 1_000_000 - n;
    assert(y * u == y * 1_000_000);
    assert(-1_000_000 < e < 1_000_000);
    assert(-1_000_001_000_000 <= x - y && x - y <= 1_000_001_000_000 && -2_000_001_000_000 <= y
        && y <= 2_000_001_000_000) by (nonlinear_arith)
        requires
            0 <= a < 1_000_000,
            -1_000_000_000_000 <= x <= 1_000_000_000_000,
            -1_000_001_000_000 <= s <= 1_000_001_000_000,
            n == a * (x - s),
            e == y * 1_000_000 - n,
            -1_000_000 < e < 1_000_000,
    ;
}

/// The low-pass recurrence is a convex combination: an input and a carried
/// output within `AMP_LIMIT` give an output within `AMP_LIMIT`.
proof fn lemma_low_recurrence(a: int, x: int, po: int, y: int)
    requires
        0 <= a <= UNIT,
        mag(x) <= AMP_LIMIT,
        mag(po) <= AMP_LIMIT,
        y == tz_div(a * x + (UNIT - a) * po, UNIT as int),
    ensures
        mag(y) <= AMP_LIMIT,
{
    let u = UNIT as int;
    let n = a * x + (u - a) * po;
    assert(-1_000_000_000_000_000_000 <= n <= 1_000_000_000_000_000_000) by (nonlinear_arith)
        requires
            0 <= a <= u,
            u == 1_000_000,
            -1_000_000_000_000 <= x <= 1_000_000_000_000,
            -1_000_000_000_000 <= po <= 1_000_000_000_000,
            n == a * x + (u - a) * po,
    ;
    lemma_tz_div_bound(n, u, 1_000_000_000_000);
}

impl Filter for HighPassFilter {
    open spec fn wf(&self) -> bool {
        &&& 1 <= self.cutoff <= MAX_CUTOFF
        &&& 1 <= self.sample_rate <= MAX_SAMPLE_RATE
        &&& self.alpha == alpha_spec(self.cutoff as int, self.sample_rate as int)
        &&& 0 <= self.alpha < UNIT
        &&& mag(self.prev_input as int) <= AMP_LIMIT
        &&& mag(self.prev_input - self.prev_output) <= AMP_LIMIT + UNIT
    }

    open spec fn cutoff_of(&self) -> int {
        self.cutoff as int
    }

    open spec fn sample_rate_of(&self) -> int {
        self.sample_rate as int
    }

    open spec fn alpha_of(&self) -> int {
        self.alpha as int
    }

    open spec fn history_of(&self) -> (int, int) {
        (self.prev_input as int, self.prev_output as int)
    }

    open spec fn step_spec(&self, x: int) -> (HighPassFilter, int) {
        let y = tz_div(self.alpha * (self.prev_output + x - self.prev_input), UNIT as int);
        (HighPassFilter { prev_input: x as i64, prev_output: y as i64, ..*self }, y)
    }

    fn new(cutoff: i64, sample_rate: i64) -> (r: Result<Self, ConfigError>) {
        if cutoff < 1 || cutoff > MAX_CUTOFF {
            Err(ConfigError::CutoffOutOfRange)
        } else if sample_rate < 1 || sample_rate > MAX_SAMPLE_RATE {
            Err(ConfigError::SampleRateOutOfRange)
        } else {
            let alpha = calculate_alpha(cutoff, sample_rate);
            Ok(
                HighPassFilter {
                    cutoff,
                    sample_rate,
                    prev_input: 0,
                    prev_output: 0,
                    alpha,
                },
            )
        }
    }

    fn set_cutoff(&mut self, cutoff: i64) -> (r: Result<(), ConfigError>) {
        if cutoff < 1 || cutoff > MAX_CUTOFF {
            Err(ConfigError::CutoffOutOfRange)
        } else {
            self.cutoff = cutoff;
            self.alpha = calculate_alpha(self.cutoff, self.sample_rate);
            Ok(())
        }
    }

    fn apply(&mut self, input: i64) -> (out: i64) {
        let sum = self.prev_output + input - self.prev_input;
        proof {
            assert(-9_000_000_000_000_000_000 <= self.alpha * sum <= 9_000_000_000_000_000_000)
                by (nonlinear_arith)
                requires
                    0 <= self.alpha < 1_000_000,
                    -5_000_000_000_000 <= sum <= 5_000_000_000_000,
            ;
        }
        let num = self.alpha * sum;
        let y = div_tz(num, UNIT);
        proof {
            lemma_high_recurrence(
                self.alpha as int,
                input as int,
                self.prev_input - self.prev_output,
                y as int,
            );
        }
        self.prev_input = input;
        self.prev_output = y;
        y
    }
}

impl Filter for LowPassFilter {
    open spec fn wf(&self) -> bool {
        &&& 1 <= self.cutoff <= MAX_CUTOFF
        &&& 1 <= self.sample_rate <= MAX_SAMPLE_RATE
        &&& self.alpha == alpha_spec(self.cutoff as int, self.sample_rate as int)
        &&& 0 <= self.alpha < UNIT
        &&& mag(self.prev_input as int) <= AMP_LIMIT
        &&& mag(self.prev_output as int) <= AMP_LIMIT
    }

    open spec fn cutoff_of(&self) -> int {
        self.cutoff as int
    }

    open spec fn sample_rate_of(&self) -> int {
        self.sample_rate as int
    }

    open spec fn alpha_of(&self) -> int {
        self.alpha as int
    }

    open spec fn history_of(&self) -> (int, int) {
        (self.prev_input as int, self.prev_output as int)
    }

    open spec fn step_spec(&self, x: int) -> (LowPassFilter, int) {
        let y = tz_div(self.alpha * x + (UNIT - self.alpha) * self.prev_output, UNIT as int);
        (LowPassFilter { prev_input: x as i64, prev_output: y as i64, ..*self }, y)
    }

    fn new(cutoff: i64, sample_rate: i64) -> (r: Result<Self, ConfigError>) {
        if cutoff < 1 || cutoff > MAX_CUTOFF {
            Err(ConfigError::CutoffOutOfRange)
        } else if sample_rate < 1 || sample_rate > MAX_SAMPLE_RATE {
            Err(ConfigError::SampleRateOutOfRange)
        } else {
            let alpha = calculate_alpha(cutoff, sample_rate);
            Ok(
                LowPassFilter {
                    cutoff,
                    sample_rate,
                    prev_input: 0,
                    prev_output: 0,
                    alpha,
                },
            )
        }
    }

    fn set_cutoff(&mut self, cutoff: i64) -> (r: Result<(), ConfigError>) {
        if cutoff < 1 || cutoff > MAX_CUTOFF {
            Err(ConfigError::CutoffOutOfRange)
        } else {
            self.cutoff = cutoff;
            self.alpha = calculate_alpha(self.cutoff, self.sample_rate);
            Ok(())
        }
    }

    fn apply(&mut self, input: i64) -> (out: i64) {
        proof {
            assert(-9_000_000_000_000_000_000 <= self.alpha * input
                && self.alpha * input <= 9_000_000_000_000_000_000
                && -9_000_000_000_000_000_000 <= (UNIT - self.alpha) * self.prev_output
                && (UNIT - self.alpha) * self.prev_output <= 9_000_000_000_000_000_000
                && -2_000_000_000_000_000_000 <= self.alpha * input + (UNIT - self.alpha)
                    * self.prev_output <= 2_000_000_000_000_000_000) by (nonlinear_arith)
                requires
                    0 <= self.alpha < 1_000_000,
                    -1_000_000_000_000 <= input <= 1_000_000_000_000,
                    -1_000_000_000_000 <= self.prev_output <= 1_000_000_000_000,
            ;
        }
        let num = self.alpha * input + (UNIT - self.alpha) * self.prev_output;
        let y = div_tz(num, UNIT);
        proof {
            lemma_low_recurrence(self.alpha as int, input as int, self.prev_output as int, y as int);
        }
        self.prev_input = input;
        self.prev_output = y;
        y
    }
}

/// The low-pass step strays from the identity by less than one raw unit
/// plus a term proportional to `UNIT − alpha`: as the coefficient approaches
/// `UNIT` (cutoff → ∞, see [`lemma_alpha_near_unit`]) the filter approaches
/// the identity transform.
pub proof fn lemma_lowpass_near_identity(f: LowPassFilter, x: int)
    requires
        f.wf(),
        mag(x) <= AMP_LIMIT,
    ensures
        (UNIT as int) * mag(f.step_spec(x).1 - x) < (UNIT - f.alpha) * mag(f.prev_output - x)
            + UNIT,
{
    let a = f.alpha as int;
    let po = f.prev_output as int;
    let n = a * x + (UNIT - a) * po;
    let y = f.step_spec(x).1;
    lemma_tz_div_close(n, UNIT as int);
    let e = y * 1_000_000 - n;
    assert(y * (UNIT as int) == y * 1_000_000);
    assert(-1_000_000 < e < 1_000_000);
    let d1 = y - x;
    let d2 = po - x;
    let m2 = mag(d2);
    assert(-((1_000_000 - a) * m2 + 1_000_000) < 1_000_000 * d1 && 1_000_000 * d1 < (1_000_000
        - a) * m2 + 1_000_000) by (nonlinear_arith)
        requires
            0 <= a < 1_000_000,
            n == a * x + (1_000_000 - a) * po,
            e == y * 1_000_000 - n,
            -1_000_000 < e < 1_000_000,
            d1 == y - x,
            d2 == po - x,
            -m2 <= d2 <= m2,
    ;
}

/// The high-pass step's output magnitude is below its coefficient times the
/// driving term, plus one raw unit: as the coefficient approaches zero
/// (cutoff → 0, see [`lemma_alpha_near_zero`]) the filter approaches the
/// zero transform, and with a zero coefficient it is the zero transform
/// exactly.
pub proof fn lemma_highpass_vanishes(f: HighPassFilter, x: int)
    requires
        f.wf(),
        mag(x) <= AMP_LIMIT,
    ensures
        (UNIT as int) * mag(f.step_spec(x).1) < f.alpha * mag(f.prev_output + x - f.prev_input)
            + UNIT,
        f.alpha == 0 ==> f.step_spec(x).1 == 0,
{
    let a = f.alpha as int;
    let w = f.prev_output + x - f.prev_input;
    let n = a * w;
    let y = f.step_spec(x).1;
    lemma_tz_div_close(n, UNIT as int);
    let e = y * 1_000_000 - n;
    assert(y * (UNIT as int) == y * 1_000_000);
    assert(-1_000_000 < e < 1_000_000);
    let m = mag(w);
    assert(-(a * m + 1_000_000) < 1_000_000 * y && 1_000_000 * y < a * m + 1_000_000)
        by (nonlinear_arith)
        requires
            0 <= a,
            n == a * w,
            e == y * 1_000_000 - n,
            -1_000_000 < e < 1_000_000,
            -m <= w <= m,
    ;
    if f.alpha == 0 {
        assert(n == 0) by (nonlinear_arith)
            requires
                n == a * w,
                a == 0,
        ;
        vstd::arithmetic::div_mod::lemma_div_of0(UNIT as int);
    }
}

/// A filter of either kind, ready to stand in a chain.
#[derive(Debug, Clone, Copy, PartialEq, Eq, Structural)]
pub enum FilterUnit {
    High(HighPassFilter),
    Low(LowPassFilter),
}

impl FilterUnit {
    /// The invariant of whichever filter this is.
    pub open spec fn wf(self) -> bool {
        match self {
            FilterUnit::High(h) => h.wf(),
            FilterUnit::Low(l) => l.wf(),
        }
    }

    /// Which kind of filter this is.
    pub open spec fn kind(self) -> FilterTypes {
        match self {
            FilterUnit::High(_) => FilterTypes::High,
            FilterUnit::Low(_) => FilterTypes::Low,
        }
    }

    /// The filter after one sample, and the sample it emits.
    pub open spec fn step_spec(self, x: int) -> (FilterUnit, int) {
        match self {
            FilterUnit::High(h) => {
                let s = h.step_spec(x);
                (FilterUnit::High(s.0), s.1)
            },
            FilterUnit::Low(l) => {
                let s = l.step_spec(x);
                (FilterUnit::Low(s.0), s.1)
            },
        }
    }

    /// Builds a filter of the requested kind with cleared history, rejecting
    /// a cutoff or sample rate outside range; the cutoff is checked first.
    pub fn build(kind: FilterTypes, cutoff: i64, sample_rate: i64) -> (r: Result<
        FilterUnit,
        ConfigError,
    >)
        ensures
            (1 <= cutoff <= MAX_CUTOFF && 1 <= sample_rate <= MAX_SAMPLE_RATE) <==> r is Ok,
            !(1 <= cutoff <= MAX_CUTOFF) ==> (r matches Err(e) ==> e
                == ConfigError::CutoffOutOfRange),
            1 <= cutoff <= MAX_CUTOFF ==> (r matches Err(e) ==> e
                == ConfigError::SampleRateOutOfRange),
            r matches Ok(f) ==> f.wf() && f.kind() == kind && f == fresh_filter(
                kind,
                cutoff,
                sample_rate,
            ),
    {
        proof {
            if 1 <= cutoff <= MAX_CUTOFF && 1 <= sample_rate <= MAX_SAMPLE_RATE {
                lemma_alpha_in_range(cutoff as int, sample_rate as int);
            }
        }
        match kind {
            FilterTypes::High => {
                match HighPassFilter::new(cutoff, sample_rate) {
                    Ok(h) => Ok(FilterUnit::High(h)),
                    Err(e) => Err(e),
                }
            },
            FilterTypes::Low => {
                match LowPassFilter::new(cutoff, sample_rate) {
                    Ok(l) => Ok(FilterUnit::Low(l)),
                    Err(e) => Err(e),
                }
            },
        }
    }

    /// One sample through whichever recurrence this filter carries.
    pub fn apply(&mut self, input: i64) -> (out: i64)
        requires
            old(self).wf(),
            mag(input as int) <= AMP_LIMIT,
        ensures
            final(self).wf(),
            (*final(self), out as int) == old(self).step_spec(input as int),
            mag(out as int) <= 2 * AMP_LIMIT + UNIT,
    {
        match *self {
            FilterUnit::High(mut h) => {
                let y = h.apply(input);
                *self = FilterUnit::High(h);
                y
            },
            FilterUnit::Low(mut l) => {
                let y = l.apply(input);
                *self = FilterUnit::Low(l);
                y
            },
        }
    }
}

/// The filter a fresh build yields: cleared history and the coefficient
/// derived from the cutoff and sample rate.
pub open spec fn fresh_filter(kind: FilterTypes, cutoff: i64, sample_rate: i64) -> FilterUnit {
    match kind {
        FilterTypes::High => FilterUnit::High(
            HighPassFilter {
                cutoff,
                sample_rate,
                prev_input: 0,
                prev_output: 0,
                alpha: alpha_spec(cutoff as int, sample_rate as int) as i64,
            },
        ),
        FilterTypes::Low => FilterUnit::Low(
            LowPassFilter {
                cutoff,
                sample_rate,
                prev_input: 0,
                prev_output: 0,
                alpha: alpha_spec(cutoff as int, sample_rate as int) as i64,
            },
        ),
    }
}

/// One step of any filter keeps its invariant, and its output stays within
/// the chain's working range.
pub proof fn lemma_unit_step_wf(f: FilterUnit, x: int)
    requires
        f.wf(),
        mag(x) <= AMP_LIMIT,
    ensures
        f.step_spec(x).0.wf(),
        mag(f.step_spec(x).1) <= 2 * AMP_LIMIT + UNIT,
{
    match f {
        FilterUnit::High(h) => {
            let y = h.step_spec(x).1;
            lemma_high_recurrence(h.alpha as int, x, h.prev_input - h.prev_output, y);
        },
        FilterUnit::Low(l) => {
            let y = l.step_spec(x).1;
            lemma_low_recurrence(l.alpha as int, x, l.prev_output as int, y);
        },
    }
}

/// Processing one sample keeps every filter of a chain well-formed.
pub proof fn lemma_chain_stepped_wf(fs: Seq<FilterUnit>, x: int)
    requires
        forall|i: int| 0 <= i < fs.len() ==> (#[trigger] fs[i]).wf(),
    ensures
        chain_stepped(fs, x).len() == fs.len(),
        forall|i: int| 0 <= i < fs.len() ==> (#[trigger] chain_stepped(fs, x)[i]).wf(),
{
    assert forall|i: int| 0 <= i < fs.len() implies (#[trigger] chain_stepped(fs, x)[i]).wf() by {
        lemma_unit_step_wf(fs[i], clip_spec(chain_out(fs, x, i)));
    }
}

/// The value flowing out of the first `i` filters of `fs` when `x` flows
/// in, each filter receiving its input clipped into the safe range.
pub open spec fn chain_out(fs: Seq<FilterUnit>, x: int, i: int) -> int
    decreases i,
{
    if i <= 0 {
        x
    } else {
        fs[i - 1].step_spec(clip_spec(chain_out(fs, x, i - 1))).1
    }
}

/// The whole chain's output for input `x`.
pub open spec fn chain_result(fs: Seq<FilterUnit>, x: int) -> int {
    chain_out(fs, x, fs.len() as int)
}

/// Every filter's state after the chain processes `x`.
pub open spec fn chain_stepped(fs: Seq<FilterUnit>, x: int) -> Seq<FilterUnit> {
    Seq::new(fs.len(), |i: int| fs[i].step_spec(clip_spec(chain_out(fs, x, i))).0)
}

/// A chain with no filters is the identity function on every input.
pub proof fn lemma_empty_chain_identity(x: int)
    ensures
        chain_result(Seq::<FilterUnit>::empty(), x) == x,
{
}

/// An ordered, growable chain of filters applied in sequence to each
/// sample. The empty chain is the identity transform.
#[derive(Debug, Clone)]
pub struct FilterChain {
    pub filters: Vec<FilterUnit>,
}

impl FilterChain {
    /// Every filter in the chain keeps its own invariant.
    pub open spec fn wf(self) -> bool {
        forall|i: int| 0 <= i < self.filters@.len() ==> (#[trigger] self.filters@[i]).wf()
    }

    /// An empty chain.
    pub fn new() -> (r: FilterChain)
        ensures
            r.filters@.len() == 0,
            r.wf(),
    {
        FilterChain { filters: Vec::new() }
    }

    /// The number of filters in the chain.
    pub fn len(&self) -> (n: usize)
        ensures
            n == self.filters@.len(),
    {
        self.filters.len()
    }

    /// Appends a filter at the end of the processing order; every existing
    /// filter keeps its state.
    pub fn add(&mut self, filter: FilterUnit)
        requires
            old(self).wf(),
            filter.wf(),
        ensures
            final(self).wf(),
            final(self).filters@ == old(self).filters@.push(filter),
    {
        self.filters.push(filter);
    }

    /// Removes the filter at `index`, simply dropping it and its history;
    /// the others keep their order and state. Returns whether anything was
    /// removed; an out-of-range index leaves the chain unchanged.
    pub fn remove(&mut self, index: usize) -> (removed: bool)
        requires
            old(self).wf(),
        ensures
            final(self).wf(),
            removed <==> index < old(self).filters@.len(),
            removed ==> final(self).filters@ == old(self).filters@.remove(index as int),
            !removed ==> final(self).filters@ == old(self).filters@,
    {
        if index < self.filters.len() {
            self.filters.remove(index);
            true
        } else {
            false
        }
    }

    /// Feeds one sample through every filter in order. The empty chain
    /// hands the sample back unchanged; otherwise the result is the last
    /// filter's output, each filter also updating its history.
    pub fn process(&mut self, input: i64) -> (out: i64)
        requires
            old(self).wf(),
        ensures
            final(self).wf(),
            final(self).filters@ == chain_stepped(old(self).filters@, input as int),
            out == chain_result(old(self).filters@, input as int),
            old(self).filters@.len() == 0 ==> out == input,
            mag(out as int) <= mag(input as int) + 2 * AMP_LIMIT + UNIT,
    {
        let ghost orig: Seq<FilterUnit> = self.filters@;
        let mut x = input;
        let mut i: usize = 0;
        let n = self.filters.len();
        while i < n
            invariant
                n == orig.len(),
                self.filters@.len() == orig.len(),
                0 <= i <= n,
                forall|j: int| i <= j < orig.len() ==> self.filters@[j] == orig[j],
                forall|j: int|
                    0 <= j < i ==> self.filters@[j] == (#[trigger] orig[j].step_spec(
                        clip_spec(chain_out(orig, input as int, j)),
                    )).0,
                forall|j: int| 0 <= j < orig.len() ==> (#[trigger] orig[j]).wf(),
                forall|j: int|
                    0 <= j < self.filters@.len() ==> (#[trigger] self.filters@[j]).wf(),
                x as int == chain_out(orig, input as int, i as int),
                i >= 1 ==> mag(x as int) <= 2 * AMP_LIMIT + UNIT,
                i == 0 ==> x == input,
            decreases n - i,
        {
            let c = clip(x);
            let mut f = self.filters[i];
            let y = f.apply(c);
            self.filters.set(i, f);
            x = y;
            i = i + 1;
        }
        proof {
            assert(self.filters@ =~= chain_stepped(orig, input as int));
        }
        x
    }
}

} // verus!
