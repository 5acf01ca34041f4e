//! Tests of the entropy pool: mixed-radix draws, bounds, and failures.

use identicons::error::IconError;
use identicons::pool::EntropyPool;

/// Repeated draws of the same size peel off the digest's digits in that base:
/// each result is in range, and the sequence is fixed for a fixed seed.
#[test]
fn take_peels_digits() {
    let mut pool = EntropyPool::via_sha512("one");
    let digits: Vec<u64> = (0..6).map(|_| pool.take(10).unwrap()).collect();
    for &d in &digits {
        assert!(d < 10);
    }
    assert_eq!(digits, vec![7, 3, 3, 9, 2, 2]);
}

/// One larger draw, pinned exactly.
#[test]
fn take_large_base() {
    let mut pool = EntropyPool::via_sha512("one");
    assert_eq!(pool.take(1000).unwrap(), 337);
}

/// A draw of size zero asks for no range at all and exhausts nothing.
#[test]
fn take_zero_fails() {
    let mut pool = EntropyPool::via_sha512("one");
    assert_eq!(pool.take(0), Err(IconError::EntropyExhausted));
    // the pool is unchanged: the next draw still sees the full digest
    assert_eq!(pool.take(1000).unwrap(), 337);
}

/// Draws beyond the remaining bound fail; draws within it still succeed.
/// Eight draws of `2^63` shrink the bound from `2^512` to exactly `2^8`.
#[test]
fn take_exhaustion_boundary() {
    let mut pool = EntropyPool::via_sha512("x");
    for _ in 0..8 {
        let r = pool.take(1u64 << 63).unwrap();
        assert!(r < (1u64 << 63));
    }
    assert_eq!(pool.take(257), Err(IconError::EntropyExhausted));
    let r = pool.take(256).unwrap();
    assert!(r < 256);
}

/// An empty range is rejected as such, not as exhaustion.
#[test]
fn range_rejects_empty() {
    let mut pool = EntropyPool::via_sha512("one");
    assert_eq!(pool.range(5, 5), Err(IconError::InvalidRange));
    assert_eq!(pool.range(6, 2), Err(IconError::InvalidRange));
}

/// A range draw lands between its bounds.
#[test]
fn range_within_bounds() {
    let mut pool = EntropyPool::via_sha512("two");
    for _ in 0..10 {
        let r = pool.range(10, 20).unwrap();
        assert!((10..20).contains(&r));
    }
}

/// Picking from an empty sequence is an invalid range.
#[test]
fn pick_rejects_empty() {
    let mut pool = EntropyPool::via_sha512("one");
    let empty: Vec<u16> = vec![];
    assert_eq!(pool.pick(&empty), Err(IconError::InvalidRange));
}

/// Picking from a one-element sequence returns that element.
#[test]
fn pick_single() {
    let mut pool = EntropyPool::via_sha512("one");
    let one: Vec<u16> = vec![42];
    assert_eq!(pool.pick(&one), Ok(42));
}

/// Weights summing to zero cannot be drawn from.
#[test]
fn choose_weighted_rejects_zero_sum() {
    let mut pool = EntropyPool::via_sha512("one");
    let table: Vec<(u16, u64)> = vec![(1, 0), (2, 0)];
    assert_eq!(pool.choose_weighted(&table), Err(IconError::WeightSumZero));
    let empty: Vec<(u16, u64)> = vec![];
    assert_eq!(pool.choose_weighted(&empty), Err(IconError::WeightSumZero));
}

/// With all weight on one entry, that entry is always chosen, and entries of
/// weight zero are never chosen.
#[test]
fn choose_weighted_respects_weights() {
    let mut pool = EntropyPool::via_sha512("one");
    let table: Vec<(u16, u64)> = vec![(7, 0), (9, 3), (8, 0)];
    for _ in 0..5 {
        assert_eq!(pool.choose_weighted(&table), Ok(9));
    }
}

/// Error descriptions, one per failure kind.
#[test]
fn error_messages() {
    assert_eq!(IconError::EntropyExhausted.message(), "entropy pool exhausted");
    assert_eq!(IconError::InvalidRange.message(), "invalid range");
    assert_eq!(IconError::WeightSumZero.message(), "weights sum to zero");
}
