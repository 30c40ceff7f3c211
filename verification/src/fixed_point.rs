//! Scaled-integer fixed-point arithmetic.
//!
//! Every quantity in the pricing engine is an integer scaled by
//! [`PRECISION`] = 10^9, so 1.0 is stored as 1_000_000_000.  Multiplication
//! and division go through a 128-bit intermediate; a result that does not fit
//! `u64` is an [`ErrorCode::OverflowError`], never a silent wrap.

use vstd::prelude::*;

use crate::errors::ErrorCode;

verus! {

/// Fixed-point scale: nine decimal places, so 1.0 is 1_000_000_000.
pub const PRECISION: u64 = 1_000_000_000;

/// ln(2) in fixed point: 0.693147180.
pub const LN_2: u64 = 693_147_180;

/// Largest exponent the exponential approximation accepts: 20.0.
pub const MAX_EXP: u64 = 20 * PRECISION;

/// Smallest liquidity parameter a market may use: 100 units.
pub const MIN_B: u64 = 100 * PRECISION;

/// Largest liquidity parameter a market may use: 1,000,000 units.
pub const MAX_B: u64 = 1_000_000 * PRECISION;

/// What fixed-point multiplication computes: `a * b` scaled back down.
pub open spec fn fp_mul(a: int, b: int) -> int {
    a * b / (PRECISION as int)
}

/// What fixed-point division computes: `a` scaled up, divided by `b`.
pub open spec fn fp_div(a: int, b: int) -> int {
    a * (PRECISION as int) / b
}

/// Fixed-point multiplication: `(a * b) / PRECISION`, exact in a 128-bit
/// intermediate, failing only when the scaled-down result exceeds `u64`.
pub fn fixed_mul(a: u64, b: u64) -> (r: Result<u64, ErrorCode>)
    ensures
        r is Ok <==> fp_mul(a as int, b as int) <= u64::MAX,
        r matches Ok(v) ==> v == fp_mul(a as int, b as int),
        r matches Err(e) ==> e == ErrorCode::OverflowError,
{
    proof {
        assert((a as u128) * (b as u128) <= u128::MAX) by (nonlinear_arith);
    }
    let product: u128 = (a as u128) * (b as u128);
    let scaled: u128 = product / (PRECISION as u128);
    if scaled <= u64::MAX as u128 {
        Ok(scaled as u64)
    } else {
        Err(ErrorCode::OverflowError)
    }
}

/// Fixed-point division: `(a * PRECISION) / b`, exact in a 128-bit
/// intermediate.  Fails with `DivisionByZero` for `b == 0` and with
/// `OverflowError` when the quotient exceeds `u64`.
pub fn fixed_div(a: u64, b: u64) -> (r: Result<u64, ErrorCode>)
    ensures
        b == 0 ==> r == Err::<u64, ErrorCode>(ErrorCode::DivisionByZero),
        b > 0 ==> (r is Ok <==> fp_div(a as int, b as int) <= u64::MAX),
        b > 0 ==> (r matches Ok(v) ==> v == fp_div(a as int, b as int)),
        b > 0 ==> (r matches Err(e) ==> e == ErrorCode::OverflowError),
{
    if b == 0 {
        return Err(ErrorCode::DivisionByZero);
    }
    proof {
        assert((a as u128) * (PRECISION as u128) <= u128::MAX) by (nonlinear_arith);
    }
    let numerator: u128 = (a as u128) * (PRECISION as u128);
    let quotient: u128 = numerator / (b as u128);
    if quotient <= u64::MAX as u128 {
        Ok(quotient as u64)
    } else {
        Err(ErrorCode::OverflowError)
    }
}

} // verus!
