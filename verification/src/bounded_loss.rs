//! The bounded-loss verifier.
//!
//! The LMSR guarantees that the market maker can never lose more than
//! `b * ln(2)` on a binary market, whatever the final share distribution.
//! This module computes that ceiling and holds the realized loss against it.
//! It is a safety net over the pricing engine, not a pricing mechanism: it
//! runs at finalization, and may run after any trade.

use vstd::prelude::*;

use vstd::arithmetic::div_mod::{lemma_div_by_multiple, lemma_div_is_ordered};
use vstd::arithmetic::mul::{lemma_mul_inequality, lemma_mul_nonnegative};

use crate::errors::ErrorCode;
use crate::fixed_point::{LN_2, PRECISION};
use crate::lmsr::spec_max_loss;

verus! {

/// The realized loss of the market maker: how far the pool has fallen below
/// the liquidity it started with, and zero when it has grown.
pub open spec fn spec_actual_loss(initial_liquidity: int, current_liquidity: int) -> int {
    if initial_liquidity > current_liquidity {
        initial_liquidity - current_liquidity
    } else {
        0
    }
}

/// The loss ceiling `b * ln(2)`, as a fallible operation.  The 128-bit
/// intermediate never overflows and the result is below `b`, so this always
/// succeeds; the `Result` keeps the failure taxonomy uniform for callers
/// that thread errors through.
pub fn calculate_max_loss(b_parameter: u64) -> (r: Result<u64, ErrorCode>)
    ensures
        r matches Ok(v) && v == spec_max_loss(b_parameter as int),
        r matches Ok(v) && v <= b_parameter,
{
    proof {
        let b = b_parameter as int;
        let p = PRECISION as int;
        assert((b_parameter as u128) * (LN_2 as u128) <= u128::MAX) by (nonlinear_arith);
        lemma_mul_nonnegative(b, LN_2 as int);
        lemma_mul_inequality(LN_2 as int, p, b);
        lemma_div_is_ordered(b * (LN_2 as int), b * p, p);
        lemma_div_by_multiple(b, p);
        assert(b * (LN_2 as int) == (LN_2 as int) * b) by (nonlinear_arith);
        assert(b * p == p * b) by (nonlinear_arith);
    }
    Ok(((b_parameter as u128) * (LN_2 as u128) / (PRECISION as u128)) as u64)
}

/// Holds the realized loss against the theoretical ceiling.  Succeeds
/// exactly when `max(0, initial - current) <= b * ln(2)`; otherwise the
/// operation that caused the loss must abort with `BoundedLossExceeded`.
pub fn verify_bounded_loss(
    initial_liquidity: u64,
    current_liquidity: u64,
    b_parameter: u64,
) -> (r: Result<(), ErrorCode>)
    ensures
        r is Ok <==> spec_actual_loss(initial_liquidity as int, current_liquidity as int)
            <= spec_max_loss(b_parameter as int),
        r matches Err(e) ==> e == ErrorCode::BoundedLossExceeded,
{
    let actual_loss: u64 = if initial_liquidity > current_liquidity {
        initial_liquidity - current_liquidity
    } else {
        0
    };

    let max_allowed_loss = match calculate_max_loss(b_parameter) {
        Ok(v) => v,
        Err(e) => {
            return Err(e);
        },
    };

    if actual_loss <= max_allowed_loss {
        Ok(())
    } else {
        Err(ErrorCode::BoundedLossExceeded)
    }
}

} // verus!
