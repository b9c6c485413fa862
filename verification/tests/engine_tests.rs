use synth::engine::Engine;
use synth::filter::FilterTypes;
use synth::units::UNIT;
use synth::waveform::Waveform;
use synth::ConfigError;

#[test]
fn a_new_engine_has_the_default_voice() {
    let e = Engine::new(44_100).unwrap();
    assert_eq!(e.wave.frequency, 440_000);
    assert_eq!(e.wave.sample_rate, 44_100);
    assert_eq!(e.wave.waveform, Waveform::Sine);
    assert_eq!(e.adsr.attack, 800_000);
    assert_eq!(e.adsr.decay, 1_200_000);
    assert_eq!(e.adsr.sustain, 500_000);
    assert_eq!(e.adsr.release, 800_000);
    assert!(!e.note.active);
    assert_eq!(e.phase, 0);
    assert_eq!(e.filter_count(), 0);
    assert!(e.trace.is_empty());
}

#[test]
fn engine_construction_validates_the_sample_rate() {
    assert_eq!(
        Engine::new(0).map(|_| ()),
        Err(ConfigError::SampleRateOutOfRange)
    );
    assert_eq!(
        Engine::new(2_000_000).map(|_| ()),
        Err(ConfigError::SampleRateOutOfRange)
    );
}

#[test]
fn every_slot_of_a_block_is_filled_and_traced() {
    let mut e = Engine::new(44_100).unwrap();
    e.note_on();
    let block = e.render_block(512);
    assert_eq!(block.len(), 512);
    assert_eq!(e.trace, block);
    let next = e.render_block(64);
    assert_eq!(next.len(), 64);
    assert_eq!(e.trace, next);
}

#[test]
fn a_silent_note_renders_silence() {
    // Created inactive with a zero clock: the release branch is already
    // past, so the gain is zero and so is every sample.
    let mut e = Engine::new(44_100).unwrap();
    e.set_release(0);
    let block = e.render_block(256);
    assert!(block.iter().all(|&s| s == 0));
}

#[test]
fn note_lifecycle_end_to_end() {
    // 44.1 kHz, 440 Hz sine, ADSR of 0.1 s attack, 0.1 s decay, 0.5
    // sustain, 0.1 s release.
    let mut e = Engine::new(44_100).unwrap();
    e.set_attack(100_000);
    e.set_decay(100_000);
    e.set_sustain(500_000);
    e.set_release(100_000);
    e.note_on();

    // The very first sample sits at the foot of the attack ramp: silence.
    let first = e.render_block(1);
    assert_eq!(first[0], 0);

    // After exactly 0.2 s (attack + decay) the note clock is exact to the
    // microsecond and the gain sits exactly on the sustain level.
    e.render_block(8_819);
    assert_eq!(e.note.time, 200_000);
    assert_eq!(e.adsr.apply(&e.note), 500_000);

    // Releasing and letting the release run out drives the output to zero
    // and keeps it there.
    e.note_off();
    e.render_block(4_410);
    assert_eq!(e.note.time, 100_000);
    let tail = e.render_block(256);
    assert!(tail.iter().all(|&s| s == 0));
}

#[test]
fn the_attack_boundary_carries_full_gain_when_decay_is_nonzero() {
    // At the attack/decay boundary the ramp has just reached full gain;
    // only a zero decay puts the sustain level there.
    let mut e = Engine::new(44_100).unwrap();
    e.set_attack(100_000);
    e.set_decay(100_000);
    e.set_sustain(500_000);
    e.note_on();
    e.render_block(4_410);
    assert_eq!(e.note.time, 100_000);
    assert_eq!(e.adsr.apply(&e.note), UNIT);
}

#[test]
fn phase_stays_inside_one_cycle_at_any_frequency() {
    let mut e = Engine::new(44_100).unwrap();
    for f in [1i64, 440_000, 999_999_999, 1_000_000_000] {
        e.set_frequency(f).unwrap();
        e.render_block(1_000);
        assert!((0..UNIT).contains(&e.phase), "frequency {f}: {}", e.phase);
    }
}

#[test]
fn filters_are_managed_through_the_engine() {
    let mut e = Engine::new(44_100).unwrap();
    assert_eq!(e.add_filter(FilterTypes::Low, 2_000_000), Ok(()));
    assert_eq!(e.add_filter(FilterTypes::High, 500_000), Ok(()));
    assert_eq!(
        e.add_filter(FilterTypes::Low, 0),
        Err(ConfigError::CutoffOutOfRange)
    );
    assert_eq!(e.filter_count(), 2);
    assert!(e.remove_filter(0));
    assert!(!e.remove_filter(7));
    assert_eq!(e.filter_count(), 1);
    e.note_on();
    assert_eq!(e.render_block(128).len(), 128);
}

#[test]
fn rendering_survives_relentless_parameter_mutation() {
    // The render side keeps pulling fixed-size blocks while the control
    // side rewrites every parameter between blocks: each invocation still
    // fills exactly its block, with no panic and no stuck state.
    let mut e = Engine::new(48_000).unwrap();
    e.note_on();
    for i in 0..10_000i64 {
        match i % 7 {
            0 => {
                e.set_frequency(1 + (i * 97) % 1_000_000).unwrap();
            }
            1 => {
                e.set_attack(i % 300_000);
                e.set_decay((i * 3) % 300_000);
            }
            2 => {
                e.set_sustain(i % (UNIT + 1));
                e.set_release((i * 11) % 300_000);
            }
            3 => {
                let kind = if i % 2 == 0 {
                    FilterTypes::Low
                } else {
                    FilterTypes::High
                };
                e.add_filter(kind, 1 + (i * 131) % 20_000_000).unwrap();
            }
            4 => {
                if e.filter_count() > 2 {
                    assert!(e.remove_filter(0));
                }
            }
            5 => {
                e.set_waveform(match i % 3 {
                    0 => Waveform::Sine,
                    1 => Waveform::Square,
                    _ => Waveform::Sawtooth,
                });
            }
            _ => {
                if i % 2 == 0 {
                    e.note_on();
                } else {
                    e.note_off();
                }
            }
        }
        let block = e.render_block(8);
        assert_eq!(block.len(), 8);
        assert_eq!(e.trace.len(), 8);
    }
}
