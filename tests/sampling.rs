use otlp_pipeline::sampler::{decide, Decision, Sampler, RATIO_SCALE};

#[test]
fn full_ratio_samples_every_trace() {
    for t in [0u128, 1, 12345, u128::MAX, 1u128 << 100] {
        assert_eq!(decide(t, RATIO_SCALE), Decision::Sample);
        assert_eq!(decide(t, RATIO_SCALE * 3), Decision::Sample);
        assert_eq!(decide(t, i64::MAX), Decision::Sample);
    }
}

#[test]
fn zero_or_negative_ratio_drops_every_trace() {
    for t in [0u128, 1, 12345, u128::MAX, 1u128 << 100] {
        assert_eq!(decide(t, 0), Decision::Drop);
        assert_eq!(decide(t, -5), Decision::Drop);
        assert_eq!(decide(t, i64::MIN), Decision::Drop);
    }
}

#[test]
fn half_ratio_splits_on_the_low_bits() {
    let half = RATIO_SCALE / 2;
    // draw = low64 / 2; the bound at one half is 2^62.
    assert_eq!(decide((1u128 << 63) - 2, half), Decision::Sample);
    assert_eq!(decide(1u128 << 63, half), Decision::Drop);
    // The high 64 bits play no part.
    assert_eq!(decide((7u128 << 64) | ((1u128 << 63) - 2), half), Decision::Sample);
    assert_eq!(decide((7u128 << 64) | (1u128 << 63), half), Decision::Drop);
}

#[test]
fn extreme_ratios_inside_the_range() {
    assert_eq!(decide(0, 1), Decision::Sample);
    assert_eq!(decide(u128::MAX, RATIO_SCALE - 1), Decision::Drop);
}

#[test]
fn repeated_decisions_agree() {
    let ratio = RATIO_SCALE / 3;
    for t in [3u128, 0xdead_beef, u128::MAX / 7, 1u128 << 62] {
        let first = decide(t, ratio);
        for _ in 0..10 {
            assert_eq!(decide(t, ratio), first);
        }
    }
}

#[test]
fn sampler_clamps_its_ratio() {
    assert_eq!(Sampler::new(-1).ratio(), 0);
    assert_eq!(Sampler::new(RATIO_SCALE * 2).ratio(), RATIO_SCALE);
    assert_eq!(Sampler::new(42).ratio(), 42);
    let s = Sampler::new(RATIO_SCALE / 2);
    assert_eq!(s.decide((1u128 << 63) - 2), Decision::Sample);
    assert_eq!(s.decide(1u128 << 63), Decision::Drop);
}
