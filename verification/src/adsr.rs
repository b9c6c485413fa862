//! The attack/decay/sustain/release amplitude envelope.
//!
//! The envelope is a pure function of the note state: the elapsed time since
//! the last transition selects a branch, and each branch is a linear ramp in
//! fixed point. Gains are in `[0, UNIT]`. Segment lengths are microseconds in
//! `[0, MAX_SEGMENT]` and the sustain level a gain in `[0, UNIT]`; the
//! constructor and the setters clamp rather than fail, and a zero-length
//! segment simply means an instantaneous jump to the next branch.

use vstd::prelude::*;

use crate::note::NoteState;
use crate::units::{MAX_SEGMENT, UNIT};
use crate::units::div_nn;

verus! {

/// A segment length clipped into `[0, MAX_SEGMENT]` microseconds.
pub open spec fn clamp_segment(v: int) -> int {
    if v < 0 {
        0
    } else if v > MAX_SEGMENT {
        MAX_SEGMENT as int
    } else {
        v
    }
}

/// A gain clipped into `[0, UNIT]`.
pub open spec fn clamp_gain(v: int) -> int {
    if v < 0 {
        0
    } else if v > UNIT {
        UNIT as int
    } else {
        v
    }
}

/// The envelope gain for elapsed time `t` since the last transition.
///
/// While the note sounds: a linear ramp `0 → UNIT` over the attack, a linear
/// ramp `UNIT → sustain` over the decay, then the sustain level held. After
/// release: a linear ramp `sustain → 0` over the release, then silence.
pub open spec fn envelope_gain(
    attack: int,
    decay: int,
    sustain: int,
    release: int,
    t: int,
    active: bool,
) -> int {
    if active {
        if t < attack {
            (t * UNIT) / attack
        } else if t < attack + decay {
            sustain + ((UNIT - sustain) * ((attack + decay) - t)) / decay
        } else {
            sustain
        }
    } else {
        if t < release {
            (sustain * (release - t)) / release
        } else {
            0
        }
    }
}

/// An amplitude envelope, linear in each of its four phases.
#[derive(Debug, Clone, Copy, PartialEq, Eq, Structural)]
pub struct ADSR {
    /// Microseconds to ramp from silence to full gain.
    pub attack: i64,
    /// Microseconds to ramp from full gain down to the sustain level.
    pub decay: i64,
    /// The gain held while the note keeps sounding, in `[0, UNIT]`.
    pub sustain: i64,
    /// Microseconds to ramp from the sustain level to silence.
    pub release: i64,
}

impl ADSR {
    /// Segments and sustain level are within their fixed-point ranges.
    pub open spec fn wf(self) -> bool {
        &&& 0 <= self.attack <= MAX_SEGMENT
        &&& 0 <= self.decay <= MAX_SEGMENT
        &&& 0 <= self.sustain <= UNIT
        &&& 0 <= self.release <= MAX_SEGMENT
    }

    /// Builds an envelope, clipping each parameter into its range rather
    /// than failing: an envelope never rejects and never panics.
    pub fn new(attack: i64, decay: i64, sustain: i64, release: i64) -> (r: ADSR)
        ensures
            r.attack == clamp_segment(attack as int),
            r.decay == clamp_segment(decay as int),
            r.sustain == clamp_gain(sustain as int),
            r.release == clamp_segment(release as int),
            r.wf(),
    {
        ADSR {
            attack: Self::clip_segment(attack),
            decay: Self::clip_segment(decay),
            sustain: Self::clip_gain(sustain),
            release: Self::clip_segment(release),
        }
    }

    /// The gain for the given note state: `envelope_gain` at the note's
    /// elapsed time, always within `[0, UNIT]`.
    pub fn apply(&self, note_state: &NoteState) -> (gain: i64)
        requires
            self.wf(),
            note_state.wf(),
        ensures
            gain == envelope_gain(
                self.attack as int,
                self.decay as int,
                self.sustain as int,
                self.release as int,
                note_state.time as int,
                note_state.active,
            ),
            0 <= gain <= UNIT,
    {
        proof {
            lemma_envelope_gain_in_range(
                self.attack as int,
                self.decay as int,
                self.sustain as int,
                self.release as int,
                note_state.time as int,
                note_state.active,
            );
        }
        let t = note_state.time;
        if note_state.active {
            if t < self.attack {
                div_nn(t * UNIT, self.attack)
            } else if t < self.attack + self.decay {
                let rest = (self.attack + self.decay) - t;
                proof {
                    assert((UNIT - self.sustain) * rest <= 1_000_000_000_000_000_000
                        && 0 <= (UNIT - self.sustain) * rest) by (nonlinear_arith)
                        requires
                            0 <= UNIT - self.sustain <= 1_000_000,
                            0 <= rest <= 1_000_000_000_000,
                    ;
                }
                self.sustain + div_nn((UNIT - self.sustain) * rest, self.decay)
            } else {
                self.sustain
            }
        } else {
            if t < self.release {
                proof {
                    assert(self.sustain * (self.release - t) <= 1_000_000_000_000_000_000
                        && 0 <= self.sustain * (self.release - t)) by (nonlinear_arith)
                        requires
                            0 <= self.sustain <= 1_000_000,
                            0 <= self.release - t <= 1_000_000_000_000,
                    ;
                }
                div_nn(self.sustain * (self.release - t), self.release)
            } else {
                0
            }
        }
    }

    /// Replaces the attack time, clipped into range.
    pub fn set_attack(&mut self, attack: i64)
        ensures
            *final(self) == (ADSR { attack: clamp_segment(attack as int) as i64, ..*old(self) }),
    {
        self.attack = Self::clip_segment(attack);
    }

    /// Replaces the decay time, clipped into range.
    pub fn set_decay(&mut self, decay: i64)
        ensures
            *final(self) == (ADSR { decay: clamp_segment(decay as int) as i64, ..*old(self) }),
    {
        self.decay = Self::clip_segment(decay);
    }

    /// Replaces the sustain level, clipped into range.
    pub fn set_sustain(&mut self, sustain: i64)
        ensures
            *final(self) == (ADSR { sustain: clamp_gain(sustain as int) as i64, ..*old(self) }),
    {
        self.sustain = Self::clip_gain(sustain);
    }

    /// Replaces the release time, clipped into range.
    pub fn set_release(&mut self, release: i64)
        ensures
            *final(self) == (ADSR { release: clamp_segment(release as int) as i64, ..*old(self) }),
    {
        self.release = Self::clip_segment(release);
    }

    /// A segment length clipped into `[0, MAX_SEGMENT]`.
    fn clip_segment(v: i64) -> (r: i64)
        ensures
            r == clamp_segment(v as int),
    {
        if v < 0 {
            0
        } else if v > MAX_SEGMENT {
            MAX_SEGMENT
        } else {
            v
        }
    }

    /// A gain clipped into `[0, UNIT]`.
    fn clip_gain(v: i64) -> (r: i64)
        ensures
            r == clamp_gain(v as int),
    {
        if v < 0 {
            0
        } else if v > UNIT {
            UNIT
        } else {
            v
        }
    }
}

/// For well-formed parameters and a nonnegative elapsed time the envelope
/// gain always lies in `[0, UNIT]`.
pub proof fn lemma_envelope_gain_in_range(
    attack: int,
    decay: int,
    sustain: int,
    release: int,
    t: int,
    active: bool,
)
    requires
        0 <= attack <= MAX_SEGMENT,
        0 <= decay <= MAX_SEGMENT,
        0 <= sustain <= UNIT,
        0 <= release <= MAX_SEGMENT,
        0 <= t,
    ensures
        0 <= envelope_gain(attack, decay, sustain, release, t, active) <= UNIT,
{
    if active {
        if t < attack {
            assert(0 <= t * UNIT <= attack * UNIT) by (nonlinear_arith)
                requires
                    0 <= t <= attack,
                    0 < UNIT,
            ;
            lemma_ramp_bounded(t * UNIT, attack, UNIT as int);
        } else if t < attack + decay {
            let rest = (attack + decay) - t;
            assert(0 <= (UNIT - sustain) * rest <= decay * (UNIT - sustain)) by (nonlinear_arith)
                requires
                    0 <= rest <= decay,
                    0 <= UNIT - sustain,
            ;
            lemma_ramp_bounded((UNIT - sustain) * rest, decay, UNIT - sustain);
        } else {
        }
    } else {
        if t < release {
            assert(0 <= sustain * (release - t) <= release * sustain) by (nonlinear_arith)
                requires
                    0 <= release - t <= release,
                    0 <= sustain,
            ;
            lemma_ramp_bounded(sustain * (release - t), release, sustain);
        } else {
        }
    }
}

/// A sounding note with a positive attack starts from silence: the gain at
/// elapsed time zero is zero. (With a zero attack the envelope instead jumps
/// straight into the decay branch, already at full gain.)
pub proof fn lemma_envelope_attack_starts_silent(attack: int, decay: int, sustain: int, release: int)
    requires
        0 < attack,
    ensures
        envelope_gain(attack, decay, sustain, release, 0, true) == 0,
{
    vstd::arithmetic::div_mod::lemma_div_of0(attack);
}

/// With no decay segment, the end of the attack lands exactly on the sustain
/// level.
pub proof fn lemma_envelope_attack_meets_sustain(attack: int, sustain: int, release: int)
    ensures
        envelope_gain(attack, 0, sustain, release, attack, true) == sustain,
{
}

/// Once the attack and decay have passed, a sounding note holds the sustain
/// level exactly.
pub proof fn lemma_envelope_holds_sustain(
    attack: int,
    decay: int,
    sustain: int,
    release: int,
    t: int,
)
    requires
        0 <= decay,
        t >= attack + decay,
    ensures
        envelope_gain(attack, decay, sustain, release, t, true) == sustain,
{
}

/// At the moment of release the gain equals the sustain level: the release
/// ramp starts where the sustain phase left off.
pub proof fn lemma_envelope_release_starts_at_sustain(
    attack: int,
    decay: int,
    sustain: int,
    release: int,
)
    requires
        0 < release,
    ensures
        envelope_gain(attack, decay, sustain, release, 0, false) == sustain,
{
    assert(sustain * (release - 0) == release * sustain) by (nonlinear_arith);
    vstd::arithmetic::div_mod::lemma_div_multiples_vanish(sustain, release);
}

/// The release ramp never rises: a later elapsed time gives a gain no larger
/// than an earlier one, and silence once the release has fully passed.
pub proof fn lemma_envelope_release_fades(
    attack: int,
    decay: int,
    sustain: int,
    release: int,
    t1: int,
    t2: int,
)
    requires
        0 <= attack <= MAX_SEGMENT,
        0 <= decay <= MAX_SEGMENT,
        0 <= sustain <= UNIT,
        0 <= release <= MAX_SEGMENT,
        0 <= t1 <= t2,
    ensures
        envelope_gain(attack, decay, sustain, release, t2, false) <= envelope_gain(
            attack,
            decay,
            sustain,
            release,
            t1,
            false,
        ),
        t2 >= release ==> envelope_gain(attack, decay, sustain, release, t2, false) == 0,
{
    lemma_envelope_gain_in_range(attack, decay, sustain, release, t1, false);
    lemma_envelope_gain_in_range(attack, decay, sustain, release, t2, false);
    if t2 < release {
        assert(sustain * (release - t2) <= sustain * (release - t1)) by (nonlinear_arith)
            requires
                0 <= sustain,
                release - t2 <= release - t1,
        ;
        vstd::arithmetic::div_mod::lemma_div_is_ordered(
            sustain * (release - t2),
            sustain * (release - t1),
            release,
        );
    }
}

/// A nonnegative numerator at most `d·c` divides by `d` to within `[0, c]`.
proof fn lemma_ramp_bounded(num: int, d: int, c: int)
    requires
        0 < d,
        0 <= c,
        0 <= num,
        num <= d * c,
    ensures
        0 <= num / d <= c,
{
    vstd::arithmetic::div_mod::lemma_div_pos_is_pos(num, d);
    vstd::arithmetic::div_mod::lemma_div_is_ordered(num, d * c, d);
    vstd::arithmetic::div_mod::lemma_div_multiples_vanish(c, d);
}

} // verus!
