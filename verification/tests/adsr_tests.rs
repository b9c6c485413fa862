use synth::adsr::ADSR;
use synth::note::NoteState;
use synth::units::{MAX_SEGMENT, UNIT};

fn sounding_at(t: i64) -> NoteState {
    let mut n = NoteState::default();
    n.note_on();
    n.update(t);
    n
}

fn released_at(t: i64) -> NoteState {
    let mut n = NoteState::default();
    n.note_off();
    n.update(t);
    n
}

#[test]
fn attack_ramps_linearly_from_silence() {
    let env = ADSR::new(100_000, 100_000, 500_000, 100_000);
    assert_eq!(env.apply(&sounding_at(0)), 0);
    assert_eq!(env.apply(&sounding_at(25_000)), 250_000);
    assert_eq!(env.apply(&sounding_at(50_000)), 500_000);
    assert_eq!(env.apply(&sounding_at(99_999)), 999_990);
}

#[test]
fn decay_ramps_from_full_gain_to_sustain() {
    let env = ADSR::new(100_000, 100_000, 500_000, 100_000);
    assert_eq!(env.apply(&sounding_at(100_000)), UNIT);
    assert_eq!(env.apply(&sounding_at(150_000)), 750_000);
    assert_eq!(env.apply(&sounding_at(200_000)), 500_000);
}

#[test]
fn sustain_holds_after_attack_and_decay() {
    let env = ADSR::new(100_000, 100_000, 500_000, 100_000);
    assert_eq!(env.apply(&sounding_at(200_000)), 500_000);
    assert_eq!(env.apply(&sounding_at(5_000_000)), 500_000);
}

#[test]
fn zero_decay_lands_on_sustain_at_the_end_of_the_attack() {
    let env = ADSR::new(100_000, 0, 300_000, 50_000);
    assert_eq!(env.apply(&sounding_at(99_999)), 999_990);
    assert_eq!(env.apply(&sounding_at(100_000)), 300_000);
}

#[test]
fn zero_attack_jumps_straight_into_the_decay_branch() {
    let env = ADSR::new(0, 100_000, 500_000, 100_000);
    assert_eq!(env.apply(&sounding_at(0)), UNIT);
    assert_eq!(env.apply(&sounding_at(100_000)), 500_000);
}

#[test]
fn release_ramps_from_sustain_to_silence() {
    let env = ADSR::new(100_000, 100_000, 500_000, 100_000);
    assert_eq!(env.apply(&released_at(0)), 500_000);
    assert_eq!(env.apply(&released_at(50_000)), 250_000);
    assert_eq!(env.apply(&released_at(100_000)), 0);
    assert_eq!(env.apply(&released_at(10_000_000)), 0);
}

#[test]
fn zero_release_is_immediately_silent() {
    let env = ADSR::new(100_000, 100_000, 500_000, 0);
    assert_eq!(env.apply(&released_at(0)), 0);
}

#[test]
fn construction_clips_parameters_into_range() {
    let env = ADSR::new(-5, MAX_SEGMENT + 1, 2_000_000, -1);
    assert_eq!(env.attack, 0);
    assert_eq!(env.decay, MAX_SEGMENT);
    assert_eq!(env.sustain, UNIT);
    assert_eq!(env.release, 0);
    let neg = ADSR::new(100, 100, -7, 100);
    assert_eq!(neg.sustain, 0);
}

#[test]
fn setters_clip_like_the_constructor() {
    let mut env = ADSR::new(100, 100, 100, 100);
    env.set_attack(-1);
    env.set_decay(MAX_SEGMENT + 5);
    env.set_sustain(UNIT + 1);
    env.set_release(42);
    assert_eq!(env.attack, 0);
    assert_eq!(env.decay, MAX_SEGMENT);
    assert_eq!(env.sustain, UNIT);
    assert_eq!(env.release, 42);
}

#[test]
fn gain_is_always_within_unit_range() {
    let env = ADSR::new(100_000, 200_000, 700_000, 300_000);
    for t in (0..1_000_000i64).step_by(7_000) {
        let on = env.apply(&sounding_at(t));
        let off = env.apply(&released_at(t));
        assert!((0..=UNIT).contains(&on));
        assert!((0..=UNIT).contains(&off));
    }
}
