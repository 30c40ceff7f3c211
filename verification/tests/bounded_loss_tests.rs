//! The bounded-loss ceiling and its verifier.

use zmart_core::bounded_loss::{calculate_max_loss, verify_bounded_loss};
use zmart_core::fixed_point::PRECISION;

#[test]
fn test_max_loss_calculation() {
    // b = 1000 units
    let b = 1_000_000_000_000u64;
    let max_loss = calculate_max_loss(b).unwrap();

    // 1000 * 0.693147180 = 693.147180 units, exactly.
    assert_eq!(max_loss, 693_147_180_000);
}

#[test]
fn test_max_loss_small_b() {
    // b = 100 units, the minimum
    let b = 100_000_000_000u64;
    let max_loss = calculate_max_loss(b).unwrap();

    // 100 * 0.693147180 = 69.3147180 units.
    assert_eq!(max_loss, 69_314_718_000);
}

#[test]
fn test_verify_within_bounds() {
    let b = 1_000_000_000_000u64; // 1000 units
    let initial = 1_000_000_000_000u64;
    let current = 400_000_000_000u64;

    // Loss = 600, ceiling ~ 693.147: passes.
    verify_bounded_loss(initial, current, b).unwrap();
}

#[test]
fn test_verify_exceeds_bounds() {
    let b = 1_000_000_000_000u64; // 1000 units
    let initial = 1_000_000_000_000u64;
    let current = 200_000_000_000u64;

    // Loss = 800, ceiling ~ 693.147: fails.
    let result = verify_bounded_loss(initial, current, b);
    assert!(result.is_err());
}

#[test]
fn test_verify_no_loss() {
    let b = 1_000_000_000_000u64; // 1000 units
    let initial = 1_000_000_000_000u64;
    let current = 1_100_000_000_000u64; // profit

    verify_bounded_loss(initial, current, b).unwrap();
}

#[test]
fn test_verify_exact_bound() {
    let b = 1_000_000_000_000u64; // 1000 units
    let max_loss = calculate_max_loss(b).unwrap();
    let initial = 1_000_000_000_000u64;
    let current = initial - max_loss; // exactly at the ceiling

    verify_bounded_loss(initial, current, b).unwrap();
}

#[test]
fn test_max_loss_thousand_precision() {
    // The loss ceiling at b = 1000 * PRECISION, bit for bit.
    assert_eq!(calculate_max_loss(1000 * PRECISION).unwrap(), 693_147_180_000);
}
