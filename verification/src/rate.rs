//! Throughput and remaining-time estimation in fixed-point arithmetic.
//!
//! Time is counted in microseconds, a rate in millionths of an item per
//! second and a smoothing factor in millionths, so that every step of the
//! exponential moving average is exact integer arithmetic: products are
//! formed in full and each division rounds down.

use vstd::prelude::*;

verus! {

/// Microseconds in one second.
pub const MICROS_PER_SECOND: u64 = 1_000_000;

/// Rate units in one item per second.
pub const RATE_SCALE: u128 = 1_000_000;

/// The smoothing factor that stands for `1.0`.
pub const SMOOTHING_ONE: u32 = 1_000_000;

/// The smoothing factor of a fresh bar, `0.3`.
pub const DEFAULT_SMOOTHING: u32 = 300_000;

/// The largest rate an estimate can reach: the largest count arriving within
/// a single microsecond.
pub const RATE_LIMIT: u128 = 18_446_744_073_709_551_615_000_000_000_000;

/// Throughput of `n` items in `dt` microseconds, in rate units: `n / dt`.
pub open spec fn instant_rate(n: nat, dt: nat) -> nat
    recommends
        dt > 0,
{
    n * 1_000_000 * 1_000_000 / dt
}

/// Exponential moving average of a new `sample` and the `previous` estimate:
/// `smoothing * sample + (1 - smoothing) * previous`.
pub open spec fn blend(previous: nat, sample: nat, smoothing: nat) -> nat
    recommends
        0 < smoothing <= 1_000_000,
{
    let keep = (1_000_000 - smoothing) as nat;
    (smoothing * sample + keep * previous) / 1_000_000
}

/// The estimate after observing `n` items over `dt` microseconds: the first
/// observation is taken as it is, later ones are blended into the estimate.
pub open spec fn next_rate(previous: Option<u128>, smoothing: u32, n: usize, dt: u64) -> nat
    recommends
        dt > 0,
        0 < smoothing <= 1_000_000,
{
    match previous {
        None => instant_rate(n as nat, dt as nat),
        Some(rate) => blend(rate as nat, instant_rate(n as nat, dt as nat), smoothing as nat),
    }
}

/// Whole seconds that `remaining` items take at `rate`: `remaining / rate`.
pub open spec fn eta_seconds(remaining: nat, rate: nat) -> nat
    recommends
        rate > 0,
{
    remaining * 1_000_000 / rate
}

/// Seconds until `total` is reached, capped at `u64::MAX`; unknown while
/// there is no total, no rate yet, or the rate is zero.
pub open spec fn eta(total: Option<usize>, completed: usize, rate: Option<u128>) -> Option<u64> {
    match (total, rate) {
        (Some(total), Some(rate)) => if rate > 0 {
            let remaining = if completed <= total {
                (total - completed) as nat
            } else {
                0
            };
            let seconds = eta_seconds(remaining, rate as nat);
            if seconds <= u64::MAX {
                Some(seconds as u64)
            } else {
                Some(u64::MAX)
            }
        } else {
            None
        },
        _ => None,
    }
}

/// A rate rounded half up to hundredths of an item per second.
pub open spec fn hundredths(rate: nat) -> nat {
    (rate + 5_000) / 10_000
}

/// A throughput never exceeds the rate limit as long as the count fits in
/// 64 bits.
pub proof fn lemma_instant_rate_bound(n: nat, dt: nat)
    requires
        n <= u64::MAX,
        dt > 0,
    ensures
        instant_rate(n, dt) <= RATE_LIMIT,
{
    assert(n * 1_000_000 * 1_000_000 <= 18_446_744_073_709_551_615_000_000_000_000int);
    assert(n * 1_000_000 * 1_000_000 / dt <= n * 1_000_000 * 1_000_000) by (nonlinear_arith)
        requires
            dt > 0,
            n >= 0,
    ;
}

/// A blend lies between the previous estimate and the new sample.
pub proof fn lemma_blend_between(previous: nat, sample: nat, smoothing: nat)
    requires
        0 < smoothing <= 1_000_000,
    ensures
        previous <= sample ==> previous <= blend(previous, sample, smoothing) <= sample,
        sample <= previous ==> sample <= blend(previous, sample, smoothing) <= previous,
{
    let weighted = smoothing * sample + (1_000_000 - smoothing) * previous;
    assert(previous <= sample ==> 1_000_000 * previous <= weighted <= 1_000_000 * sample)
        by (nonlinear_arith)
        requires
            0 < smoothing <= 1_000_000,
            weighted == smoothing * sample + (1_000_000 - smoothing) * previous,
    ;
    assert(sample <= previous ==> 1_000_000 * sample <= weighted <= 1_000_000 * previous)
        by (nonlinear_arith)
        requires
            0 < smoothing <= 1_000_000,
            weighted == smoothing * sample + (1_000_000 - smoothing) * previous,
    ;
}

/// An estimate stays within the rate limit.
pub proof fn lemma_next_rate_bound(previous: Option<u128>, smoothing: u32, n: usize, dt: u64)
    requires
        dt > 0,
        0 < smoothing <= SMOOTHING_ONE,
        previous matches Some(rate) ==> rate <= RATE_LIMIT,
    ensures
        next_rate(previous, smoothing, n, dt) <= RATE_LIMIT,
{
    lemma_instant_rate_bound(n as nat, dt as nat);
    if let Some(rate) = previous {
        lemma_blend_between(rate as nat, instant_rate(n as nat, dt as nat), smoothing as nat);
    }
}

/// With a smoothing factor of one the estimate is the newest sample, whatever
/// came before: the estimate converges at once.
pub proof fn lemma_full_smoothing_tracks_sample(previous: Option<u128>, n: usize, dt: u64)
    requires
        dt > 0,
    ensures
        next_rate(previous, SMOOTHING_ONE, n, dt) == instant_rate(n as nat, dt as nat),
{
    let sample = instant_rate(n as nat, dt as nat);
    if let Some(rate) = previous {
        assert(1_000_000 * sample + (1_000_000 - 1_000_000) * rate == 1_000_000 * sample)
            by (nonlinear_arith);
    }
}

/// A steady stream of `n` items every `dt` microseconds keeps an estimate
/// that already equals its throughput where it is, for every smoothing
/// factor.
pub proof fn lemma_steady_rate_is_fixed_point(smoothing: nat, n: nat, dt: nat)
    requires
        dt > 0,
        0 < smoothing <= 1_000_000,
    ensures
        blend(instant_rate(n, dt), instant_rate(n, dt), smoothing) == instant_rate(n, dt),
{
    lemma_blend_between(instant_rate(n, dt), instant_rate(n, dt), smoothing);
}

/// The raw throughput of `n` items in `dt` microseconds.
pub fn measure(n: usize, dt: u64) -> (rate: u128)
    requires
        dt > 0,
    ensures
        rate == instant_rate(n as nat, dt as nat),
        rate <= RATE_LIMIT,
{
    proof {
        lemma_instant_rate_bound(n as nat, dt as nat);
    }
    let scaled: u128 = (n as u128) * 1_000_000 * 1_000_000;
    scaled / (dt as u128)
}

/// Folds one observation, `n` items over `dt` microseconds, into the
/// estimate.
pub fn estimate(previous: Option<u128>, smoothing: u32, n: usize, dt: u64) -> (rate: u128)
    requires
        dt > 0,
        0 < smoothing <= SMOOTHING_ONE,
        previous matches Some(p) ==> p <= RATE_LIMIT,
    ensures
        rate == next_rate(previous, smoothing, n, dt),
        rate <= RATE_LIMIT,
{
    let sample: u128 = measure(n, dt);
    match previous {
        None => sample,
        Some(old_rate) => {
            let keep: u128 = (SMOOTHING_ONE - smoothing) as u128;
            let fresh: u128 = smoothing as u128;
            proof {
                lemma_blend_between(old_rate as nat, sample as nat, smoothing as nat);
                assert(fresh * sample + keep * old_rate <= 1_000_000 * RATE_LIMIT)
                    by (nonlinear_arith)
                    requires
                        fresh + keep == 1_000_000,
                        0 <= fresh,
                        0 <= keep,
                        0 <= sample <= RATE_LIMIT,
                        0 <= old_rate <= RATE_LIMIT,
                ;
                assert(fresh * sample <= fresh * sample + keep * old_rate) by (nonlinear_arith)
                    requires
                        0 <= keep,
                        0 <= old_rate,
                ;
            }
            (fresh * sample + keep * old_rate) / 1_000_000
        },
    }
}

/// Seconds left until `total` is reached at `rate`, if that can be told.
pub fn time_left(total: Option<usize>, completed: usize, rate: Option<u128>) -> (left: Option<u64>)
    ensures
        left == eta(total, completed, rate),
{
    match (total, rate) {
        (Some(total), Some(rate)) => {
            if rate > 0 {
                let remaining: u128 = if completed <= total {
                    (total - completed) as u128
                } else {
                    0
                };
                let seconds: u128 = remaining * 1_000_000 / rate;
                if seconds <= u64::MAX as u128 {
                    Some(seconds as u64)
                } else {
                    Some(u64::MAX)
                }
            } else {
                None
            }
        },
        _ => None,
    }
}

} // verus!
