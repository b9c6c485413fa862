//! The note-trigger state machine.
//!
//! A note is either sounding (`active`) or released, and `time` is the count
//! of microseconds since the last transition. Transitions reset the clock to
//! zero; advancing adds the elapsed microseconds, saturating at `MAX_TIME`
//! (far beyond any envelope segment) instead of overflowing.

use vstd::prelude::*;

use crate::units::MAX_TIME;

verus! {

/// Elapsed time after adding a step, saturated at `MAX_TIME`.
pub open spec fn sat_time(t: int) -> int {
    if t > MAX_TIME {
        MAX_TIME as int
    } else {
        t
    }
}

/// Elapsed time after a run of `advance` steps starting from `t`.
pub open spec fn time_after(t: int, deltas: Seq<int>) -> int
    decreases deltas.len(),
{
    if deltas.len() == 0 {
        t
    } else {
        time_after(sat_time(t + deltas[0]), deltas.drop_first())
    }
}

/// The sum of a run of steps.
pub open spec fn total_of(deltas: Seq<int>) -> int
    decreases deltas.len(),
{
    if deltas.len() == 0 {
        0
    } else {
        deltas[0] + total_of(deltas.drop_first())
    }
}

/// The state of a note: whether it is sounding, and the microseconds since
/// it last changed state.
#[derive(Debug, Clone, Copy, PartialEq, Eq, Structural)]
pub struct NoteState {
    pub active: bool,
    pub time: i64,
}

impl Default for NoteState {
    /// A fresh note: silent, with the transition clock at zero.
    fn default() -> (r: NoteState)
        ensures
            !r.active,
            r.time == 0,
            r.wf(),
    {
        NoteState { active: false, time: 0 }
    }
}

impl NoteState {
    /// The transition clock never runs backwards past zero nor past its
    /// saturation point.
    pub open spec fn wf(self) -> bool {
        0 <= self.time <= MAX_TIME
    }

    /// A key went down: the note sounds and the clock restarts.
    pub fn note_on(&mut self)
        ensures
            final(self).active,
            final(self).time == 0,
            final(self).wf(),
    {
        self.active = true;
        self.time = 0;
    }

    /// A key came up: the note releases and the clock restarts.
    pub fn note_off(&mut self)
        ensures
            !final(self).active,
            final(self).time == 0,
            final(self).wf(),
    {
        self.active = false;
        self.time = 0;
    }

    /// Advances the clock by `delta` microseconds; the sounding flag is
    /// untouched and the clock saturates instead of overflowing.
    pub fn update(&mut self, delta: i64)
        requires
            old(self).wf(),
            0 <= delta,
        ensures
            final(self).active == old(self).active,
            final(self).time == sat_time(old(self).time + delta),
            final(self).wf(),
    {
        if delta > MAX_TIME - self.time {
            self.time = MAX_TIME;
        } else {
            self.time = self.time + delta;
        }
    }
}

/// Nonnegative steps have a nonnegative sum.
pub proof fn lemma_total_nonneg(deltas: Seq<int>)
    requires
        forall|i: int| 0 <= i < deltas.len() ==> deltas[i] >= 0,
    ensures
        total_of(deltas) >= 0,
    decreases deltas.len(),
{
    if deltas.len() > 0 {
        lemma_total_nonneg(deltas.drop_first());
    }
}

/// As long as the total stays below the saturation point, a run of `advance`
/// steps accumulates exactly: the clock ends at the starting time plus the
/// sum of the steps.
pub proof fn lemma_time_accumulates(t: int, deltas: Seq<int>)
    requires
        0 <= t,
        forall|i: int| 0 <= i < deltas.len() ==> deltas[i] >= 0,
        t + total_of(deltas) <= MAX_TIME,
    ensures
        time_after(t, deltas) == t + total_of(deltas),
    decreases deltas.len(),
{
    if deltas.len() > 0 {
        lemma_total_nonneg(deltas.drop_first());
        assert(t + deltas[0] <= MAX_TIME);
        lemma_time_accumulates(t + deltas[0], deltas.drop_first());
    }
}

} // verus!
