//! The integer LMSR held against a floating-point reference model.
//!
//! These tests recompute prices, costs and the loss ceiling in `f64` and
//! check the fixed-point engine's behaviour against them within a small
//! tolerance.

use zmart_core::fixed_point::PRECISION as FP_PRECISION;
use zmart_core::lmsr::calculate_yes_price;

const PRECISION: u64 = 1_000_000_000;
const PRECISION_F64: f64 = 1_000_000_000.0;

/// Reference price: `e^(q_yes/b) / (e^(q_yes/b) + e^(q_no/b))` in `f64`.
fn calculate_price(q_yes: u64, q_no: u64, b: u64) -> Result<u64, String> {
    let q_yes_f = (q_yes as f64) / PRECISION_F64;
    let q_no_f = (q_no as f64) / PRECISION_F64;
    let b_f = (b as f64) / PRECISION_F64;

    let exp_yes = (q_yes_f / b_f).exp();
    let exp_no = (q_no_f / b_f).exp();

    let price_f = exp_yes / (exp_yes + exp_no);

    Ok((price_f * PRECISION_F64) as u64)
}

/// Reference loss ceiling: `b * ln(2)` in `f64`.
fn calculate_max_bounded_loss(b: u64) -> u64 {
    let b_f = (b as f64) / PRECISION_F64;
    let max_loss_f = b_f * 2.0_f64.ln();

    (max_loss_f * PRECISION_F64) as u64
}

fn validate_price_bounds(price: u64) -> Result<(), String> {
    if price > PRECISION {
        return Err(format!("Price {} exceeds maximum {}", price, PRECISION));
    }
    Ok(())
}

fn validate_price_movement(
    price_before: u64,
    price_after: u64,
    is_buy_yes: bool,
) -> Result<(), String> {
    if is_buy_yes {
        if price_after <= price_before {
            return Err(format!(
                "Price should increase when buying YES: before {} <= after {}",
                price_before, price_after
            ));
        }
    } else {
        if price_after >= price_before {
            return Err(format!(
                "Price should decrease when buying NO: before {} >= after {}",
                price_before, price_after
            ));
        }
    }
    Ok(())
}

/// Known case: equal shares price at one half.
fn test_case_equal_shares() -> (u64, u64, u64, u64) {
    let q_yes = 500_000_000; // 0.5
    let q_no = 500_000_000; // 0.5
    let b = 500_000_000; // 0.5
    let expected_price = 500_000_000; // 0.5

    (q_yes, q_no, b, expected_price)
}

#[test]
fn test_equal_shares_price() {
    let (q_yes, q_no, b, expected) = test_case_equal_shares();
    let price = calculate_price(q_yes, q_no, b).unwrap();

    // 1% tolerance for floating-point precision
    let tolerance = PRECISION / 100;
    let diff = if price > expected { price - expected } else { expected - price };
    assert!(diff <= tolerance);
}

#[test]
fn lmsr_helpers_test_bounded_loss_calculation() {
    let b = 500_000_000; // 0.5
    let max_loss = calculate_max_bounded_loss(b);

    // Max loss ~ b * 0.693, so about 0.3466 for b of one half.
    let expected = (0.5 * 0.693 * PRECISION_F64) as u64;
    let tolerance = PRECISION / 100;

    let diff = if max_loss > expected { max_loss - expected } else { expected - max_loss };
    assert!(diff <= tolerance);
}

#[test]
fn test_price_bounds() {
    let (q_yes, q_no, b, _) = test_case_equal_shares();
    let price = calculate_price(q_yes, q_no, b).unwrap();

    assert!(validate_price_bounds(price).is_ok());
}

#[test]
fn test_buy_increases_price() {
    let q_yes = 500_000_000;
    let q_no = 500_000_000;
    let b = 500_000_000;

    let price_before = calculate_price(q_yes, q_no, b).unwrap();

    let delta_q = 100_000_000; // Buy 0.1 YES shares
    let price_after = calculate_price(q_yes + delta_q, q_no, b).unwrap();

    assert!(validate_price_movement(price_before, price_after, true).is_ok());
}

#[test]
fn test_integer_price_tracks_reference() {
    // The fixed-point price stays within 0.1% of the f64 softmax on a
    // balanced range of states.
    let b = 200 * FP_PRECISION;
    for (q_yes, q_no) in [
        (0u64, 0u64),
        (50 * FP_PRECISION, 10 * FP_PRECISION),
        (10 * FP_PRECISION, 50 * FP_PRECISION),
        (123 * FP_PRECISION, 77 * FP_PRECISION),
    ] {
        let exact = calculate_price(q_yes, q_no, b).unwrap();
        let fixed = calculate_yes_price(q_yes, q_no, b).unwrap();
        let diff = if fixed > exact { fixed - exact } else { exact - fixed };
        assert!(diff <= FP_PRECISION / 1000, "diff {} too large", diff);
    }
}
