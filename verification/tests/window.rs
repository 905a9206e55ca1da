use rolling_stats::{
    Endianness, InvalidConfiguration, RollingStats, DEFAULT_WINDOW_SIZE, MAX_WINDOW_SIZE,
};

#[test]
fn test_default_params() {
    let mut stats = RollingStats::default();
    assert_eq!(stats.endianness(), Endianness::Big);
    stats.add_sample(1);
    stats.add_sample(2);
    stats.add_sample(3);
    assert_eq!(stats.len(), 3);
    stats.add_sample(4);
    assert_eq!(stats.len(), 3);
}

#[test]
fn test_win_size() {
    let mut stats = RollingStats::new(4, Endianness::Little);
    stats.add_sample(1);
    stats.add_sample(2);
    stats.add_sample(3);
    stats.add_sample(4);
    assert_eq!(stats.len(), 4);
    stats.add_sample(5);
    assert_eq!(stats.len(), 4);
}

#[test]
fn test_sums_and_squaresums() {
    let mut stats = RollingStats::new(3, Endianness::Big);
    stats.add_sample(1);
    stats.add_sample(2);
    stats.add_sample(3);
    assert_eq!(stats.sum(), 6);
    assert_eq!(stats.sum_of_squares(), 14);
}

#[test]
fn new_window_is_empty() {
    let stats = RollingStats::new(7, Endianness::Little);
    assert_eq!(stats.window_size(), 7);
    assert_eq!(stats.endianness(), Endianness::Little);
    assert_eq!(stats.len(), 0);
    assert_eq!(stats.values(), Vec::<i32>::new());
    assert_eq!(stats.remainder(), &[] as &[u8]);
    assert_eq!(stats.sum(), 0);
    assert_eq!(stats.sum_of_squares(), 0);
}

#[test]
fn default_configuration() {
    let stats = RollingStats::default();
    assert_eq!(DEFAULT_WINDOW_SIZE, 3);
    assert_eq!(stats.window_size(), 3);
    assert_eq!(stats.endianness(), Endianness::Big);
    assert_eq!(Endianness::default(), Endianness::Big);
    assert_eq!(stats.len(), 0);
}

#[test]
fn try_new_accepts_every_size_within_limits() {
    assert_eq!(MAX_WINDOW_SIZE, 10);
    for size in 1..=MAX_WINDOW_SIZE {
        let stats = RollingStats::try_new(size, Endianness::Big).unwrap();
        assert_eq!(stats.window_size(), size);
        assert_eq!(stats.len(), 0);
    }
}

#[test]
fn try_new_rejects_zero() {
    let made = RollingStats::try_new(0, Endianness::Big);
    assert_eq!(made.err(), Some(InvalidConfiguration { window_size: 0 }));
}

#[test]
fn try_new_rejects_oversized() {
    let made = RollingStats::try_new(11, Endianness::Little);
    assert_eq!(made.err(), Some(InvalidConfiguration { window_size: 11 }));
    let made = RollingStats::try_new(usize::MAX, Endianness::Little);
    assert_eq!(
        made.err(),
        Some(InvalidConfiguration {
            window_size: usize::MAX
        })
    );
}

#[test]
fn oldest_sample_is_evicted_first() {
    let mut stats = RollingStats::new(3, Endianness::Big);
    stats.add_sample(1);
    assert_eq!(stats.values(), vec![1]);
    stats.add_sample(2);
    assert_eq!(stats.values(), vec![1, 2]);
    stats.add_sample(3);
    assert_eq!(stats.values(), vec![1, 2, 3]);
    stats.add_sample(4);
    assert_eq!(stats.values(), vec![2, 3, 4]);
    assert_eq!(stats.sum(), 9);
    assert_eq!(stats.sum_of_squares(), 29);
    stats.add_sample(-5);
    assert_eq!(stats.values(), vec![3, 4, -5]);
    assert_eq!(stats.sum(), 2);
    assert_eq!(stats.sum_of_squares(), 50);
}

#[test]
fn window_of_one_keeps_only_the_latest() {
    let mut stats = RollingStats::new(1, Endianness::Big);
    stats.add_sample(10);
    stats.add_sample(-20);
    assert_eq!(stats.values(), vec![-20]);
    assert_eq!(stats.sum(), -20);
    assert_eq!(stats.sum_of_squares(), 400);
}

#[test]
fn window_retains_the_most_recent_samples() {
    for capacity in 1..=MAX_WINDOW_SIZE {
        let mut stats = RollingStats::new(capacity, Endianness::Big);
        let samples: Vec<i32> = (0..25).map(|i| i * 7 - 40).collect();
        for (count, sample) in samples.iter().enumerate() {
            stats.add_sample(*sample);
            let seen = &samples[..=count];
            let kept = &seen[seen.len().saturating_sub(capacity)..];
            assert_eq!(stats.values(), kept.to_vec());
            assert_eq!(stats.len(), kept.len());
        }
    }
}

#[test]
fn aggregates_match_recomputation_after_every_insert() {
    let samples = [
        3,
        -7,
        i32::MAX,
        i32::MIN,
        0,
        12345,
        -1,
        i32::MIN,
        i32::MAX,
        i32::MAX,
        99,
        -100,
        5,
    ];
    let mut stats = RollingStats::new(4, Endianness::Little);
    for sample in samples {
        stats.add_sample(sample);
        let values = stats.values();
        let sum: i64 = values.iter().map(|v| *v as i64).sum();
        let squares: i128 = values.iter().map(|v| (*v as i128) * (*v as i128)).sum();
        assert_eq!(stats.sum(), sum);
        assert_eq!(stats.sum_of_squares(), squares);
        assert!(stats.len() <= stats.window_size());
    }
}

#[test]
fn extreme_samples_do_not_overflow_the_aggregates() {
    let mut stats = RollingStats::new(10, Endianness::Big);
    for _ in 0..25 {
        stats.add_sample(i32::MIN);
    }
    assert_eq!(stats.len(), 10);
    assert_eq!(stats.sum(), -21_474_836_480);
    assert_eq!(stats.sum_of_squares(), 46_116_860_184_273_879_040);
    for _ in 0..10 {
        stats.add_sample(i32::MAX);
    }
    assert_eq!(stats.sum(), 21_474_836_470);
    assert_eq!(stats.sum_of_squares(), 46_116_860_141_324_206_090);
    for _ in 0..10 {
        stats.add_sample(0);
    }
    assert_eq!(stats.sum(), 0);
    assert_eq!(stats.sum_of_squares(), 0);
}
