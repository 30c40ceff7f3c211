//! The exact fee splitter: the parts always sum to the whole.

use zmart_core::errors::ErrorCode;
use zmart_core::fees::{calculate_fees_accurate, enforce_minimum_fee};

#[test]
fn test_fee_accuracy() {
    // 1 unit = 1 billion value units
    let fees = calculate_fees_accurate(
        1_000_000_000,
        300, // 3%
        200, // 2%
        500, // 5%
    )
    .unwrap();

    // Total is exactly 10%.
    assert_eq!(fees.total_fees, 100_000_000);

    // The parts sum to the whole: no value leakage.
    assert_eq!(fees.protocol_fee + fees.resolver_fee + fees.lp_fee, fees.total_fees);

    // And each part is proportional.
    assert_eq!(fees.protocol_fee, 30_000_000); // 3%
    assert_eq!(fees.resolver_fee, 20_000_000); // 2%
    assert_eq!(fees.lp_fee, 50_000_000); // 5%
}

#[test]
fn test_small_amount_rounding() {
    // 99 value units
    let fees = calculate_fees_accurate(99, 300, 200, 500).unwrap();

    // Total fees: 99 * 1000 / 10000 = 9 (rounded down from 9.9).
    assert_eq!(fees.total_fees, 9);

    // The parts still sum to the whole.
    assert_eq!(fees.protocol_fee + fees.resolver_fee + fees.lp_fee, fees.total_fees);
}

#[test]
fn test_no_value_leakage() {
    // Many small amounts: never any accumulated leakage.
    let test_amounts = [1, 10, 99, 100, 999, 1000, 9999, 10000, 99999, 100000];

    for amount in test_amounts.iter() {
        let fees = calculate_fees_accurate(*amount, 300, 200, 500).unwrap();

        assert_eq!(
            fees.protocol_fee + fees.resolver_fee + fees.lp_fee,
            fees.total_fees,
            "Value leakage detected for amount: {}",
            amount
        );
    }
}

#[test]
fn test_edge_case_zero_amount() {
    let fees = calculate_fees_accurate(0, 300, 200, 500).unwrap();
    assert_eq!(fees.total_fees, 0);
    assert_eq!(fees.protocol_fee, 0);
    assert_eq!(fees.resolver_fee, 0);
    assert_eq!(fees.lp_fee, 0);
}

#[test]
fn test_edge_case_large_amount() {
    // 10,000 units
    let large_amount = 10_000_000_000_000u64;
    let fees = calculate_fees_accurate(large_amount, 300, 200, 500).unwrap();

    assert!(fees.total_fees > 0);
    assert_eq!(fees.protocol_fee + fees.resolver_fee + fees.lp_fee, fees.total_fees);
}

#[test]
fn test_zero_rates_are_rejected() {
    // With every rate zero there is no proportion to split by.
    assert_eq!(
        calculate_fees_accurate(1_000_000, 0, 0, 0).unwrap_err(),
        ErrorCode::DivisionByZero
    );
}

#[test]
fn test_oversized_amount_overflows() {
    // amount * total_bps does not fit u64.
    assert_eq!(
        calculate_fees_accurate(u64::MAX, 300, 200, 500).unwrap_err(),
        ErrorCode::OverflowError
    );
}

#[test]
fn test_enforce_minimum_fee_clamp() {
    assert_eq!(enforce_minimum_fee(500, 1000), 1000);
    assert_eq!(enforce_minimum_fee(1500, 1000), 1500);
    assert_eq!(enforce_minimum_fee(1000, 1000), 1000);
    assert_eq!(enforce_minimum_fee(0, 0), 0);
}
