use synth::units::UNIT;
use synth::waveform::{Wave, Waveform};
use synth::ConfigError;

#[test]
fn square_is_full_scale_each_half_cycle() {
    let w = Waveform::Square;
    assert_eq!(w.gen(0), UNIT);
    assert_eq!(w.gen(250_000), UNIT);
    assert_eq!(w.gen(499_999), UNIT);
    assert_eq!(w.gen(500_000), -UNIT);
    assert_eq!(w.gen(999_999), -UNIT);
}

#[test]
fn sawtooth_ramps_across_the_cycle() {
    let w = Waveform::Sawtooth;
    assert_eq!(w.gen(0), -UNIT);
    assert_eq!(w.gen(250_000), -500_000);
    assert_eq!(w.gen(500_000), 0);
    assert_eq!(w.gen(750_000), 500_000);
    assert_eq!(w.gen(999_999), 999_998);
}

#[test]
fn sine_hits_the_quarter_cycle_points_exactly() {
    let w = Waveform::Sine;
    assert_eq!(w.gen(0), 0);
    assert_eq!(w.gen(250_000), UNIT);
    assert_eq!(w.gen(500_000), 0);
    assert_eq!(w.gen(750_000), -UNIT);
}

#[test]
fn sine_is_close_to_the_transcendental_value() {
    // Bhaskara's approximation is within about 0.2% of sin(2π·phase).
    let w = Waveform::Sine;
    for k in 0..1000 {
        let phase: i64 = k * 1000;
        let got = w.gen(phase) as f64 / UNIT as f64;
        let exact = (2.0 * std::f64::consts::PI * (phase as f64 / UNIT as f64)).sin();
        assert!((got - exact).abs() < 0.003, "phase {phase}: {got} vs {exact}");
    }
}

#[test]
fn every_shape_is_bounded_by_full_scale() {
    for shape in [Waveform::Sine, Waveform::Square, Waveform::Sawtooth] {
        for k in 0..2000 {
            let phase: i64 = k * 500;
            let v = shape.gen(phase);
            assert!(-UNIT <= v && v <= UNIT, "{shape:?} at {phase}: {v}");
        }
    }
}

#[test]
fn wave_construction_validates_its_inputs() {
    let w = Wave::new(440_000, 44_100, Waveform::Sine).unwrap();
    assert_eq!(w.frequency, 440_000);
    assert_eq!(w.sample_rate, 44_100);
    assert_eq!(w.waveform, Waveform::Sine);
    assert_eq!(w.amplitude, UNIT);
    assert_eq!(
        Wave::new(0, 44_100, Waveform::Sine),
        Err(ConfigError::FrequencyOutOfRange)
    );
    assert_eq!(
        Wave::new(-5, 44_100, Waveform::Square),
        Err(ConfigError::FrequencyOutOfRange)
    );
    assert_eq!(
        Wave::new(440_000, 0, Waveform::Sine),
        Err(ConfigError::SampleRateOutOfRange)
    );
    assert_eq!(
        Wave::new(440_000, 2_000_000, Waveform::Sine),
        Err(ConfigError::SampleRateOutOfRange)
    );
}

#[test]
fn wave_apply_uses_the_configured_shape() {
    let mut w = Wave::new(440_000, 44_100, Waveform::Square).unwrap();
    assert_eq!(w.apply(100_000), UNIT);
    w.set_waveform(Waveform::Sawtooth);
    assert_eq!(w.apply(100_000), -800_000);
    assert_eq!(w.frequency, 440_000);
}

#[test]
fn wave_retuning_validates_and_keeps_other_settings() {
    let mut w = Wave::new(440_000, 44_100, Waveform::Sine).unwrap();
    assert_eq!(w.set_frequency(880_000), Ok(()));
    assert_eq!(w.frequency, 880_000);
    assert_eq!(
        w.set_frequency(0),
        Err(ConfigError::FrequencyOutOfRange)
    );
    assert_eq!(w.frequency, 880_000);
    assert_eq!(w.sample_rate, 44_100);
}
