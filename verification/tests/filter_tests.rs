use synth::filter::{
    Filter, FilterChain, FilterTypes, FilterUnit, HighPassFilter, LowPassFilter,
};
use synth::units::UNIT;
use synth::ConfigError;

/// The integer coefficient formula, written out independently:
/// `UNIT · 710·cutoff / (710·cutoff + 113000·rate)`.
fn expected_alpha(cutoff: i64, sample_rate: i64) -> i64 {
    (UNIT * 710 * cutoff) / (710 * cutoff + 113_000 * sample_rate)
}

#[test]
fn alpha_matches_the_two_pi_formula() {
    let h = HighPassFilter::new(1_000_000, 44_100).unwrap();
    assert_eq!(h.alpha, expected_alpha(1_000_000, 44_100));
    assert_eq!(h.alpha, 124_707);
    let l = LowPassFilter::new(250_000, 48_000).unwrap();
    assert_eq!(l.alpha, expected_alpha(250_000, 48_000));
    assert!(0 < h.alpha && h.alpha < UNIT);
    assert!(0 < l.alpha && l.alpha < UNIT);
}

#[test]
fn construction_validates_cutoff_and_rate() {
    assert_eq!(
        HighPassFilter::new(0, 44_100).map(|f| f.cutoff),
        Err(ConfigError::CutoffOutOfRange)
    );
    assert_eq!(
        LowPassFilter::new(-3, 44_100).map(|f| f.cutoff),
        Err(ConfigError::CutoffOutOfRange)
    );
    assert_eq!(
        HighPassFilter::new(1000, 0).map(|f| f.cutoff),
        Err(ConfigError::SampleRateOutOfRange)
    );
    let f = LowPassFilter::new(1000, 44_100).unwrap();
    assert_eq!(f.prev_input, 0);
    assert_eq!(f.prev_output, 0);
}

#[test]
fn retuning_recomputes_alpha_but_keeps_history() {
    let mut f = LowPassFilter::new(1_000_000, 44_100).unwrap();
    let y = f.apply(800_000);
    assert_eq!(f.prev_input, 800_000);
    assert_eq!(f.prev_output, y);
    assert_eq!(f.set_cutoff(20_000_000), Ok(()));
    assert_eq!(f.alpha, expected_alpha(20_000_000, 44_100));
    assert_eq!(f.prev_input, 800_000);
    assert_eq!(f.prev_output, y);
    assert_eq!(f.set_cutoff(0), Err(ConfigError::CutoffOutOfRange));
    assert_eq!(f.cutoff, 20_000_000);
}

#[test]
fn highpass_follows_its_recurrence() {
    let mut f = HighPassFilter::new(1_000_000, 44_100).unwrap();
    let a = f.alpha;
    // First sample from cleared history: y = alpha·x / UNIT.
    let y1 = f.apply(UNIT);
    assert_eq!(y1, a);
    // Steady input: y2 = alpha·(y1 + x - x) / UNIT.
    let y2 = f.apply(UNIT);
    assert_eq!(y2, a * y1 / UNIT);
}

#[test]
fn lowpass_follows_its_recurrence() {
    let mut f = LowPassFilter::new(1_000_000, 44_100).unwrap();
    let a = f.alpha;
    let y1 = f.apply(UNIT);
    assert_eq!(y1, a);
    let y2 = f.apply(UNIT);
    assert_eq!(y2, (a * UNIT + (UNIT - a) * y1) / UNIT);
    assert!(y1 < y2 && y2 < UNIT);
}

#[test]
fn huge_cutoff_makes_the_lowpass_nearly_transparent() {
    // 1 MHz cutoff at 44.1 kHz: alpha within a hair of UNIT, so one step
    // changes a full-scale sample by almost nothing.
    let mut f = LowPassFilter::new(1_000_000_000, 44_100).unwrap();
    assert!(f.alpha > 992_000);
    let y = f.apply(UNIT);
    assert!((UNIT - y).abs() < 8_000);
}

#[test]
fn tiny_cutoff_makes_the_highpass_vanish() {
    // 1 mHz cutoff at 1 MHz: the coefficient floors to zero and the filter
    // is the zero transform.
    let mut f = HighPassFilter::new(1, 1_000_000).unwrap();
    assert_eq!(f.alpha, 0);
    assert_eq!(f.apply(UNIT), 0);
    assert_eq!(f.apply(-UNIT), 0);
}

#[test]
fn empty_chain_is_the_identity() {
    let mut chain = FilterChain::new();
    for x in [0i64, 1, -1, UNIT, -UNIT, 123_456_789] {
        assert_eq!(chain.process(x), x);
    }
}

#[test]
fn chain_applies_filters_in_order() {
    let mut chain = FilterChain::new();
    chain.add(FilterUnit::build(FilterTypes::High, 500_000, 44_100).unwrap());
    chain.add(FilterUnit::build(FilterTypes::Low, 2_000_000, 44_100).unwrap());
    let mut high = HighPassFilter::new(500_000, 44_100).unwrap();
    let mut low = LowPassFilter::new(2_000_000, 44_100).unwrap();
    for x in [UNIT, 400_000, -250_000, -UNIT, 0, 999] {
        let expected = low.apply(high.apply(x));
        assert_eq!(chain.process(x), expected);
    }
}

#[test]
fn chain_membership_is_edited_by_index() {
    let mut chain = FilterChain::new();
    assert_eq!(chain.len(), 0);
    chain.add(FilterUnit::build(FilterTypes::High, 500_000, 44_100).unwrap());
    chain.add(FilterUnit::build(FilterTypes::Low, 2_000_000, 44_100).unwrap());
    assert_eq!(chain.len(), 2);
    assert!(!chain.remove(5));
    assert_eq!(chain.len(), 2);
    assert!(chain.remove(0));
    assert_eq!(chain.len(), 1);
    // The low-pass survived and kept its identity.
    match chain.filters[0] {
        FilterUnit::Low(l) => assert_eq!(l.cutoff, 2_000_000),
        FilterUnit::High(_) => panic!("wrong filter removed"),
    }
}

#[test]
fn build_rejects_what_the_concrete_constructors_reject() {
    assert_eq!(
        FilterUnit::build(FilterTypes::Low, 0, 44_100).map(|_| ()),
        Err(ConfigError::CutoffOutOfRange)
    );
    assert_eq!(
        FilterUnit::build(FilterTypes::High, 1000, -1).map(|_| ()),
        Err(ConfigError::SampleRateOutOfRange)
    );
}
