use container_runtime::binary64::{round, Binary64};

fn samples() -> Vec<f64> {
    let mut samples = vec![
        0.0,
        -0.0,
        1.0,
        -1.0,
        0.5,
        0.1,
        0.29,
        0.57,
        1.1,
        1.005,
        2.675,
        3.999999999999999,
        0.00001,
        0.000009999999999999999,
        0.000001,
        1e-300,
        5e-324,
        2.2250738585072014e-308,
        2.225073858507201e-308,
        63.999999999999,
        64.0,
        1e15,
        9007199254740991.0,
        9007199254740993.0,
        1.8446744073709552e19,
        1e300,
        f64::MAX,
        f64::MIN_POSITIVE,
        f64::EPSILON,
        f64::INFINITY,
        f64::NEG_INFINITY,
        f64::NAN,
    ];
    let mut state: u64 = 0x9e37_79b9_7f4a_7c15;
    for _ in 0..20_000 {
        state ^= state << 13;
        state ^= state >> 7;
        state ^= state << 17;
        samples.push(f64::from_bits(state));
        samples.push((state % 1_000_000_000) as f64 / 1_000_003.0);
        samples.push((state >> 40) as f64 * 0.37e-5);
    }
    samples
}

#[test]
fn finite_positive_numbers_are_recognised() {
    for x in samples() {
        assert_eq!(
            Binary64 { bits: x.to_bits() }.is_finite_and_positive(),
            x.is_finite() && x > 0.0,
            "{x:e}"
        );
    }
}

#[test]
fn numbers_at_most_zero_are_recognised() {
    for x in samples() {
        let number = Binary64 { bits: x.to_bits() };
        assert_eq!(number.is_at_most_zero(), x <= 0.0, "{x:e}");
        assert_eq!(number.is_nan(), x.is_nan(), "{x:e}");
        assert_eq!(number.is_infinite(), x.is_infinite(), "{x:e}");
    }
}

#[test]
fn products_agree_with_the_processor() {
    for x in samples() {
        if !(x.is_finite() && x > 0.0) {
            continue;
        }
        for factor in [100_000u64, 1, 3, 1_000_000] {
            assert_eq!(
                Binary64 { bits: x.to_bits() }.multiply_to_whole(factor),
                (x * factor as f64) as u64,
                "{x:e} * {factor}"
            );
        }
    }
}

#[test]
fn comparisons_agree_with_the_processor() {
    for x in samples() {
        if !(x.is_finite() && x > 0.0) {
            continue;
        }
        for n in [1u64, 2, 8, 64, 192, 1_000_000, (1 << 53) + 1, u64::MAX] {
            assert_eq!(
                Binary64 { bits: x.to_bits() }.exceeds(Binary64::round_count(n)),
                x > n as f64,
                "{x:e} > {n}"
            );
        }
    }
}

#[test]
fn counts_become_the_nearest_numbers() {
    let mut counts = vec![0, 1, 2, 3, 100, u64::MAX, u64::MAX - 1];
    for shift in 50..64 {
        for d in 0..5 {
            counts.push((1u64 << shift) + d);
            counts.push((1u64 << shift) - d);
            counts.push((1u64 << shift) + (1u64 << (shift - 50)) + d);
        }
    }
    for n in counts {
        assert_eq!(Binary64::from_count(n).bits, (n as f64).to_bits(), "{n}");
        assert_eq!(Binary64::round_count(n), n as f64 as u128, "{n}");
    }
}

#[test]
fn rounding_keeps_53_bits() {
    assert_eq!(round(0), 0);
    assert_eq!(round((1 << 53) - 1), (1 << 53) - 1);
    assert_eq!(round((1 << 53) + 1), 1 << 53);
    assert_eq!(round((1 << 53) + 3), (1 << 53) + 4);
    for p in [(1u128 << 100) + 1, (1 << 107) - 1, 12345678901234567890123] {
        assert_eq!(round(p), p as f64 as u128);
    }
}

#[test]
fn rounding_does_not_swap_numbers() {
    let mut last = 0;
    for p in ((1u128 << 60) - 3000)..((1u128 << 60) + 3000) {
        let next = round(p);
        assert!(last <= next);
        last = next;
    }
}
