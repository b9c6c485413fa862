//! Fixed-point scale constants and the division helpers the pipeline uses.
//!
//! One full waveform cycle, one full-scale amplitude and one full gain are all
//! `UNIT` (one million) raw units, times are microseconds and frequencies
//! millihertz, so every quantity of the engine is an `i64` and every formula
//! is exact integer arithmetic.

use vstd::prelude::*;

verus! {

/// The fixed-point scale: raw value `UNIT` stands for the real number 1.
pub const UNIT: i64 = 1_000_000;

/// Half a cycle of phase, in raw phase units.
pub const HALF_UNIT: i64 = 500_000;

/// Largest signal magnitude a filter accepts; far above any audible level,
/// it exists so that every product in the filter recurrences fits in `i64`.
pub const AMP_LIMIT: i64 = 1_000_000_000_000;

/// Longest envelope segment (attack, decay or release), in microseconds.
pub const MAX_SEGMENT: i64 = 1_000_000_000_000;

/// Elapsed note time saturates here instead of overflowing; it is far beyond
/// `MAX_SEGMENT`, so saturation never changes which envelope branch applies.
pub const MAX_TIME: i64 = 4_000_000_000_000_000;

/// Largest oscillator frequency, in millihertz.
pub const MAX_FREQUENCY: i64 = 1_000_000_000;

/// Largest sample rate, in hertz.
pub const MAX_SAMPLE_RATE: i64 = 1_000_000;

/// Largest filter cutoff, in millihertz.
pub const MAX_CUTOFF: i64 = 1_000_000_000;

/// Numerator of the rational approximation 2π ≈ 710/113 used for filter
/// coefficients.
pub const TWO_PI_NUM: i64 = 710;

/// Denominator of the rational approximation 2π ≈ 710/113.
pub const TWO_PI_DEN: i64 = 113;

/// Magnitude of an integer.
pub open spec fn mag(x: int) -> int {
    if x < 0 {
        -x
    } else {
        x
    }
}

/// Division rounded toward zero, the rounding `i64` division performs.
/// Meaningful for `d > 0`.
pub open spec fn tz_div(n: int, d: int) -> int {
    if n >= 0 {
        n / d
    } else {
        -((-n) / d)
    }
}

/// A value clipped into `[-AMP_LIMIT, AMP_LIMIT]`.
pub open spec fn clip_spec(x: int) -> int {
    if x < -AMP_LIMIT {
        -AMP_LIMIT as int
    } else if x > AMP_LIMIT {
        AMP_LIMIT as int
    } else {
        x
    }
}

/// Quotient of nonnegative `n` by positive `d`; rounding toward zero and
/// flooring agree here.
pub fn div_nn(n: i64, d: i64) -> (r: i64)
    requires
        0 <= n,
        0 < d,
    ensures
        r == n as int / d as int,
        0 <= r <= n,
{
    proof {
        vstd::arithmetic::div_mod::lemma_div_pos_is_pos(n as int, d as int);
        vstd::arithmetic::div_mod::lemma_div_nonincreasing(n as int, d as int);
    }
    let q: u64 = (n as u64) / (d as u64);
    q as i64
}

/// Remainder of nonnegative `n` by positive `d`.
pub fn rem_nn(n: i64, d: i64) -> (r: i64)
    requires
        0 <= n,
        0 < d,
    ensures
        r == n as int % d as int,
        0 <= r < d,
{
    let q: u64 = (n as u64) % (d as u64);
    q as i64
}

/// Quotient of any `n` by positive `d`, rounded toward zero.
pub fn div_tz(n: i64, d: i64) -> (r: i64)
    requires
        i64::MIN < n,
        0 < d,
    ensures
        r == tz_div(n as int, d as int),
        mag(r as int) <= mag(n as int),
{
    if n >= 0 {
        div_nn(n, d)
    } else {
        let m = div_nn(-n, d);
        -m
    }
}

/// A value clipped into `[-AMP_LIMIT, AMP_LIMIT]`.
pub fn clip(x: i64) -> (r: i64)
    ensures
        r == clip_spec(x as int),
        -AMP_LIMIT <= r <= AMP_LIMIT,
{
    if x < -AMP_LIMIT {
        -AMP_LIMIT
    } else if x > AMP_LIMIT {
        AMP_LIMIT
    } else {
        x
    }
}

/// Rounding toward zero never enlarges a magnitude bound: if `|n| <= c·d`
/// then `|n tz/ d| <= c`.
pub proof fn lemma_tz_div_bound(n: int, d: int, c: int)
    requires
        0 < d,
        0 <= c,
        mag(n) <= c * d,
    ensures
        mag(tz_div(n, d)) <= c,
{
    let m = mag(n);
    assert(m <= c * d);
    vstd::arithmetic::div_mod::lemma_div_is_ordered(m, c * d, d);
    vstd::arithmetic::div_mod::lemma_div_multiples_vanish(c, d);
    assert(c * d == d * c) by (nonlinear_arith);
    assert(m / d <= c);
    vstd::arithmetic::div_mod::lemma_div_pos_is_pos(m, d);
    assert(mag(tz_div(n, d)) == m / d);
}

/// The quotient stays within one unit of the exact ratio: `|q·d - n| < d`.
pub proof fn lemma_tz_div_close(n: int, d: int)
    requires
        0 < d,
    ensures
        mag(tz_div(n, d) * d - n) < d,
{
    let m = mag(n);
    vstd::arithmetic::div_mod::lemma_fundamental_div_mod(m, d);
    vstd::arithmetic::div_mod::lemma_mod_bound(m, d);
    assert(m == d * (m / d) + (m % d));
    assert(d * (m / d) == (m / d) * d) by (nonlinear_arith);
    assert(mag((m / d) * d - m) < d);
    if n >= 0 {
        assert(tz_div(n, d) * d == (m / d) * d);
    } else {
        assert(tz_div(n, d) == -(m / d));
        assert((-(m / d)) * d == -((m / d) * d)) by (nonlinear_arith);
        assert(mag(tz_div(n, d) * d - n) == mag((m / d) * d - m));
    }
}

} // verus!
