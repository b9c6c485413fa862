use synth::note::NoteState;
use synth::units::MAX_TIME;

#[test]
fn a_fresh_note_is_silent_with_a_zero_clock() {
    let n = NoteState::default();
    assert!(!n.active);
    assert_eq!(n.time, 0);
}

#[test]
fn advancing_accumulates_exactly() {
    let mut n = NoteState::default();
    n.note_on();
    assert!(n.active);
    assert_eq!(n.time, 0);
    for _ in 0..5 {
        n.update(22);
    }
    assert_eq!(n.time, 110);
    n.update(0);
    assert_eq!(n.time, 110);
    assert!(n.active);
}

#[test]
fn transitions_reset_the_clock_and_flip_the_flag() {
    let mut n = NoteState::default();
    n.note_on();
    n.update(1_000);
    n.note_off();
    assert!(!n.active);
    assert_eq!(n.time, 0);
    n.update(250);
    assert_eq!(n.time, 250);
    n.note_on();
    assert!(n.active);
    assert_eq!(n.time, 0);
}

#[test]
fn the_clock_saturates_instead_of_overflowing() {
    let mut n = NoteState::default();
    n.update(MAX_TIME);
    assert_eq!(n.time, MAX_TIME);
    n.update(i64::MAX);
    assert_eq!(n.time, MAX_TIME);
}
