//! The LMSR pricing engine: exponential, logarithm, cost, prices, trades.

use zmart_core::errors::ErrorCode;
use zmart_core::fixed_point::PRECISION;
use zmart_core::lmsr::{
    calculate_b_parameter, calculate_max_loss, calculate_no_price, calculate_sell_proceeds,
    calculate_yes_price, cost_function, fixed_exp, fixed_ln, log_sum_exp,
};

fn from_f64(value: f64) -> u64 {
    (value * PRECISION as f64) as u64
}

#[test]
fn test_fixed_exp_basic() {
    // e^0 = 1
    let result = fixed_exp(0).unwrap();
    assert_eq!(result, PRECISION);

    // e^1 ~ 2.718
    let result = fixed_exp(PRECISION).unwrap();
    let expected = from_f64(2.718);
    let error = if result > expected { result - expected } else { expected - result };
    assert!(error < PRECISION / 100); // < 1% error
}

#[test]
fn test_fixed_ln_basic() {
    // ln(1) = 0
    let result = fixed_ln(PRECISION).unwrap();
    assert_eq!(result, 0);

    // ln(e) ~ 1
    let e = from_f64(2.718281828);
    let result = fixed_ln(e).unwrap();
    let error = if result > PRECISION { result - PRECISION } else { PRECISION - result };
    assert!(error < PRECISION / 100); // < 1% error
}

#[test]
fn test_cost_function_zero_shares() {
    // C(0, 0) = b * ln(2)
    let b = 1000 * PRECISION;
    let cost = cost_function(0, 0, b).unwrap();
    let expected_cost = calculate_max_loss(b);

    let error = if cost > expected_cost { cost - expected_cost } else { expected_cost - cost };
    assert!(error < PRECISION); // Within one unit
}

#[test]
fn test_prices_equal_for_zero_shares() {
    // With equal shares, prices are 50/50.
    let b = 1000 * PRECISION;
    let yes_price = calculate_yes_price(0, 0, b).unwrap();
    let no_price = calculate_no_price(0, 0, b).unwrap();

    assert!(yes_price > from_f64(0.49) && yes_price < from_f64(0.51));
    assert!(no_price > from_f64(0.49) && no_price < from_f64(0.51));
}

#[test]
fn test_prices_sum_to_one() {
    let b = 1000 * PRECISION;

    let scenarios = vec![
        (0, 0),
        (100 * PRECISION, 0),
        (0, 100 * PRECISION),
        (500 * PRECISION, 300 * PRECISION),
    ];

    for (q_yes, q_no) in scenarios {
        let yes_price = calculate_yes_price(q_yes, q_no, b).unwrap();
        let no_price = calculate_no_price(q_yes, q_no, b).unwrap();

        // P(YES) + P(NO) must equal 1.0 exactly.
        assert_eq!(yes_price + no_price, PRECISION);
    }
}

#[test]
fn test_buy_cost_increases_price() {
    // Buying YES shares increases the YES price.
    let b = 1000 * PRECISION;
    let initial_q_yes = 10 * PRECISION;
    let initial_q_no = 10 * PRECISION;

    let initial_price = calculate_yes_price(initial_q_yes, initial_q_no, b).unwrap();

    // Buy 5 YES shares (fixed quantity, no search).
    let shares_to_buy = 5 * PRECISION;
    let new_q_yes = initial_q_yes + shares_to_buy;
    let new_price = calculate_yes_price(new_q_yes, initial_q_no, b).unwrap();

    assert!(new_price > initial_price);
}

#[test]
fn test_sell_proceeds_less_than_buy_cost() {
    // Sell proceeds never exceed the buy cost just paid.
    let b = 1000 * PRECISION;
    let q_yes = 20 * PRECISION;
    let q_no = 10 * PRECISION;

    // Cost to buy 5 shares
    let shares = 5 * PRECISION;
    let buy_cost = cost_function(q_yes + shares, q_no, b)
        .unwrap()
        .checked_sub(cost_function(q_yes, q_no, b).unwrap())
        .unwrap();

    // Proceeds from selling the same shares back
    let sell_proceeds = calculate_sell_proceeds(q_yes + shares, q_no, b, true, shares).unwrap();

    // No riskless round trip: the market moved when we bought.
    assert!(sell_proceeds <= buy_cost);
}

#[test]
fn lmsr_test_bounded_loss_calculation() {
    let b = 1000 * PRECISION; // 1000 units
    let max_loss = calculate_max_loss(b);

    // Max loss ~ b * 0.693
    let expected = from_f64(693.0);
    let error = if max_loss > expected { max_loss - expected } else { expected - max_loss };
    assert!(error < PRECISION); // Within one unit
}

#[test]
fn test_b_parameter_from_max_loss() {
    let max_loss = 693 * PRECISION;
    let b = calculate_b_parameter(max_loss);

    // Should be approximately 1000 units.
    let expected = 1000 * PRECISION;
    let error = if b > expected { b - expected } else { expected - b };
    assert!(error < 10 * PRECISION); // Within 10 units
}

#[test]
#[should_panic(expected = "InvalidBParameter")]
fn test_invalid_b_parameter() {
    let b = 10 * PRECISION; // Below MIN_B (100)
    cost_function(0, 0, b).unwrap();
}

#[test]
#[should_panic(expected = "ExponentTooLarge")]
fn test_exp_overflow() {
    let x = 25 * PRECISION; // Above MAX_EXP (20)
    fixed_exp(x).unwrap();
}

#[test]
fn test_log_sum_exp_stability() {
    // log_sum_exp stays finite with large inputs.
    let large_x = 15 * PRECISION;
    let large_y = 14 * PRECISION;

    let result = log_sum_exp(large_x, large_y).unwrap();

    // Close to max(x, y) when the inputs are large.
    assert!(result > large_x);
    assert!(result < large_x + 2 * PRECISION);
}

#[test]
fn test_price_sum_is_exact_at_extremes() {
    // The complement identity holds bit for bit even for lopsided markets.
    let b = 100 * PRECISION;
    for (q_yes, q_no) in [
        (199 * PRECISION, 0u64),
        (0u64, 199 * PRECISION),
        (1u64, 0u64),
        (0u64, 1u64),
        (7 * PRECISION + 123, 3 * PRECISION + 77),
    ] {
        let yes = calculate_yes_price(q_yes, q_no, b).unwrap();
        let no = calculate_no_price(q_yes, q_no, b).unwrap();
        assert_eq!(yes + no, PRECISION);
    }
}

#[test]
fn test_price_error_cases() {
    // A liquidity parameter below the minimum is rejected.
    assert_eq!(calculate_yes_price(0, 0, PRECISION), Err(ErrorCode::InvalidBParameter));
    // An imbalance beyond the exponential domain is rejected.
    let b = 100 * PRECISION;
    assert_eq!(
        calculate_yes_price(5000 * PRECISION, 0, b),
        Err(ErrorCode::ExponentTooLarge)
    );
}

#[test]
fn test_ln_of_two_is_constant() {
    // The logarithm hits the compiled ln(2) constant exactly at 2.0.
    assert_eq!(fixed_ln(2 * PRECISION).unwrap(), 693_147_180);
}

#[test]
fn test_ln_rejects_zero() {
    assert_eq!(fixed_ln(0), Err(ErrorCode::InvalidInput));
}

#[test]
fn test_ln_recombines_powers_of_two() {
    // Range reduction hands back each halving as one ln(2): ln(4) is two of
    // them exactly, and ln(2) itself one.
    assert_eq!(fixed_ln(4 * PRECISION).unwrap(), 2 * 693_147_180);
    assert_eq!(fixed_ln(8 * PRECISION).unwrap(), 3 * 693_147_180);
}

#[test]
fn test_ln_of_three() {
    // ln(3) ~ 1.0986: one halving into 1.5 plus the series there.
    let v = fixed_ln(3 * PRECISION).unwrap();
    let expected = 1_098_612_288u64;
    let diff = if v > expected { v - expected } else { expected - v };
    assert!(diff < PRECISION / 100);
}

#[test]
fn test_solver_stays_inside_target() {
    // The shares the search returns cost at most one bracket step beyond
    // the target: the step below them always costs less than the target.
    let b = 1000 * PRECISION;
    let q_yes = 10 * PRECISION;
    let q_no = 10 * PRECISION;
    let target = PRECISION; // spend one unit
    let (cost, shares) = zmart_core::lmsr::calculate_buy_cost(q_yes, q_no, b, true, target)
        .unwrap();
    assert!(shares > 0);
    let below = cost_function(q_yes + shares - 1, q_no, b).unwrap()
        - cost_function(q_yes, q_no, b).unwrap();
    assert!(below < target);
    let _ = cost;
}
