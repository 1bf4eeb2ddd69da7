use tqdm::rate::{
    estimate, measure, time_left, DEFAULT_SMOOTHING, MICROS_PER_SECOND, RATE_LIMIT, RATE_SCALE,
    SMOOTHING_ONE,
};
use tqdm::{Record, Setting};

const SECOND: u64 = 1_000_000;

#[test]
fn units() {
    assert_eq!(MICROS_PER_SECOND, 1_000_000);
    assert_eq!(RATE_SCALE, 1_000_000);
    assert_eq!(SMOOTHING_ONE, 1_000_000);
    assert_eq!(DEFAULT_SMOOTHING, 300_000);
    assert_eq!(RATE_LIMIT, u128::from(u64::MAX) * 1_000_000_000_000);
}

#[test]
fn first_observation_is_taken_as_it_is() {
    assert_eq!(estimate(None, 300_000, 10, SECOND), 10 * RATE_SCALE);
    assert_eq!(estimate(None, 1_000_000, 10, SECOND), 10 * RATE_SCALE);
    assert_eq!(estimate(None, 1, 3, 2 * SECOND), 1_500_000);
}

#[test]
fn full_smoothing_converges_at_once() {
    let mut rate = None;
    for _ in 0..5 {
        let next = estimate(rate, SMOOTHING_ONE, 10, SECOND);
        assert_eq!(next, 10 * RATE_SCALE);
        rate = Some(next);
    }
    assert_eq!(estimate(Some(5 * RATE_SCALE), SMOOTHING_ONE, 10, SECOND), 10 * RATE_SCALE);
    assert_eq!(estimate(Some(RATE_LIMIT), SMOOTHING_ONE, 10, SECOND), 10 * RATE_SCALE);
}

#[test]
fn default_smoothing_blends_three_to_seven() {
    // 0.3 * 10 + 0.7 * 5 = 6.5
    assert_eq!(estimate(Some(5 * RATE_SCALE), 300_000, 10, SECOND), 6_500_000);
    // 0.3 * 0 + 0.7 * 10 = 7
    assert_eq!(estimate(Some(10 * RATE_SCALE), 300_000, 0, SECOND), 7_000_000);
    // a steady stream stays where it is
    assert_eq!(estimate(Some(10 * RATE_SCALE), 300_000, 10, SECOND), 10 * RATE_SCALE);
    assert_eq!(estimate(Some(10 * RATE_SCALE), 300_000, 5, SECOND / 2), 10 * RATE_SCALE);
}

#[test]
fn throughput_is_items_per_second() {
    assert_eq!(measure(10, SECOND), 10_000_000);
    assert_eq!(measure(1, 2 * SECOND), 500_000);
    assert_eq!(measure(1, 3 * SECOND), 333_333);
    assert_eq!(measure(0, 1), 0);
    assert_eq!(measure(1, 1), 1_000_000_000_000);
    assert_eq!(measure(24, 41_667), 575_995_392);
}

#[test]
fn largest_inputs_stay_in_range() {
    let top = measure(usize::MAX, 1);
    assert!(top <= RATE_LIMIT);
    assert_eq!(top, (usize::MAX as u128) * 1_000_000_000_000);
    assert_eq!(estimate(Some(RATE_LIMIT), 1, usize::MAX, 1), {
        (top + 999_999 * RATE_LIMIT) / 1_000_000
    });
    assert_eq!(estimate(Some(RATE_LIMIT), 300_000, 0, u64::MAX), {
        700_000 * RATE_LIMIT / 1_000_000
    });
}

#[test]
fn remaining_time() {
    assert_eq!(time_left(Some(100), 20, Some(10 * RATE_SCALE)), Some(8));
    assert_eq!(time_left(Some(100), 20, Some(3 * RATE_SCALE)), Some(26));
    assert_eq!(time_left(Some(100), 100, Some(3 * RATE_SCALE)), Some(0));
    assert_eq!(time_left(Some(100), 150, Some(3 * RATE_SCALE)), Some(0));
    assert_eq!(time_left(Some(100), 20, Some(500_000)), Some(160));
    assert_eq!(time_left(Some(100), 20, Some(1)), Some(80_000_000));
    assert_eq!(time_left(Some(100), 20, None), None);
    assert_eq!(time_left(None, 20, Some(10 * RATE_SCALE)), None);
    assert_eq!(time_left(None, 20, None), None);
    assert_eq!(time_left(Some(100), 20, Some(0)), None);
}

#[test]
fn remaining_time_is_capped() {
    if usize::BITS == 64 {
        assert_eq!(time_left(Some(usize::MAX), 0, Some(1)), Some(u64::MAX));
        assert_eq!(
            time_left(Some(usize::MAX), 0, Some(1_000_000)),
            Some(u64::MAX)
        );
        assert_eq!(
            time_left(Some(usize::MAX), 0, Some(2_000_000)),
            Some(u64::MAX / 2)
        );
    }
}

#[test]
fn record_feeds_the_estimator() {
    let mut record = Record::new(None, 0);
    record.update(5, SECOND);
    assert_eq!(record.rate_estimate(), None);
    record.update(5, 2 * SECOND);
    assert_eq!(record.rate_estimate(), Some(5_000_000));
    record.update(10, 3 * SECOND);
    assert_eq!(record.rate_estimate(), Some(6_500_000));
    // no time has passed: the estimator is not asked
    record.update(10, 3 * SECOND);
    assert_eq!(record.rate_estimate(), Some(6_500_000));
    assert_eq!(record.completed(), 30);
    record.configure(Setting::Smoothing(SMOOTHING_ONE)).unwrap();
    record.update(10, 4 * SECOND);
    assert_eq!(record.rate_estimate(), Some(10_000_000));
    record.update(10, 5 * SECOND);
    assert_eq!(record.rate_estimate(), Some(10_000_000));
}
