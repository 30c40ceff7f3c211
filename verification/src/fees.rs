//! The fee splitter.
//!
//! Naive per-component fee division loses value: each share truncates on its
//! own, so the parts can sum to less than the whole.  Here the total fee is
//! computed with a single division, the first two components are carved out
//! of that total, and the last is the exact remainder — so the components
//! always sum to the total, for every input, with no tolerance.

use vstd::prelude::*;

use vstd::arithmetic::div_mod::{lemma_div_pos_is_pos, lemma_fundamental_div_mod,
    lemma_mod_division_less_than_divisor};

use crate::errors::ErrorCode;

verus! {

/// How a single fee charge splits across the three recipients.
#[derive(Clone, Copy, Debug)]
pub struct FeeBreakdown {
    /// The protocol's share, in value units.
    pub protocol_fee: u64,
    /// The resolver's share, in value units.
    pub resolver_fee: u64,
    /// The liquidity providers' share, in value units.
    pub lp_fee: u64,
    /// The whole charge; always exactly the sum of the three shares.
    pub total_fees: u64,
}

/// The combined fee rate in basis points.
pub open spec fn spec_total_fee_bps(protocol_bps: int, resolver_bps: int, lp_bps: int) -> int {
    protocol_bps + resolver_bps + lp_bps
}

/// The whole charge for an amount: one truncating division by 10000.
pub open spec fn spec_total_fees(amount: int, total_bps: int) -> int {
    amount * total_bps / 10000
}

/// One recipient's cut of the whole charge, proportional to its rate.
pub open spec fn spec_fee_share(total_fees: int, part_bps: int, total_bps: int) -> int {
    total_fees * part_bps / total_bps
}

/// Splits a fee charge so that no value leaks through rounding.  The total
/// is one division; the protocol and resolver shares are proportional cuts
/// of that total; the liquidity-provider share is the exact remainder.  For
/// every successful split, `protocol + resolver + lp == total` holds
/// exactly — including amount zero and amounts too small for any single
/// share to round above zero.  A zero combined rate is `DivisionByZero`, as
/// there is no proportion to split by.
pub fn calculate_fees_accurate(
    amount: u64,
    protocol_fee_bps: u16,
    resolver_fee_bps: u16,
    lp_fee_bps: u16,
) -> (r: Result<FeeBreakdown, ErrorCode>)
    ensures
        ({
            let tbps = spec_total_fee_bps(
                protocol_fee_bps as int,
                resolver_fee_bps as int,
                lp_fee_bps as int,
            );
            let total = spec_total_fees(amount as int, tbps);
            &&& (tbps == 0 ==> r == Err::<FeeBreakdown, ErrorCode>(ErrorCode::DivisionByZero))
            &&& (tbps > 0 && amount as int * tbps > u64::MAX ==> r == Err::<
                FeeBreakdown,
                ErrorCode,
            >(ErrorCode::OverflowError))
            &&& (tbps > 0 && amount as int * tbps <= u64::MAX && (total * protocol_fee_bps
                > u64::MAX || total * resolver_fee_bps > u64::MAX) ==> r == Err::<
                FeeBreakdown,
                ErrorCode,
            >(ErrorCode::OverflowError))
            &&& (tbps > 0 && amount as int * tbps <= u64::MAX && total * protocol_fee_bps
                <= u64::MAX && total * resolver_fee_bps <= u64::MAX ==> (r matches Ok(f)
                && f.total_fees == total && f.protocol_fee == spec_fee_share(
                total,
                protocol_fee_bps as int,
                tbps,
            ) && f.resolver_fee == spec_fee_share(total, resolver_fee_bps as int, tbps)
                && f.protocol_fee + f.resolver_fee + f.lp_fee == f.total_fees))
        }),
{
    let total_fee_bps: u64 = (protocol_fee_bps as u64) + (resolver_fee_bps as u64) + (
    lp_fee_bps as u64);

    if total_fee_bps == 0 {
        return Err(ErrorCode::DivisionByZero);
    }
    if amount > 0 && total_fee_bps > u64::MAX / amount {
        proof {
            lemma_fundamental_div_mod(u64::MAX as int, amount as int);
            lemma_mod_division_less_than_divisor(u64::MAX as int, amount as int);
            assert(amount as int * total_fee_bps as int > u64::MAX) by (nonlinear_arith)
                requires
                    amount > 0,
                    total_fee_bps as int > (u64::MAX as int) / (amount as int),
                    u64::MAX as int == amount as int * ((u64::MAX as int) / (amount as int))
                        + (u64::MAX as int) % (amount as int),
                    0 <= (u64::MAX as int) % (amount as int) < amount as int,
            ;
        }
        return Err(ErrorCode::OverflowError);
    }
    proof {
        if amount > 0 {
            lemma_fundamental_div_mod(u64::MAX as int, amount as int);
            lemma_mod_division_less_than_divisor(u64::MAX as int, amount as int);
            assert(amount as int * total_fee_bps as int <= u64::MAX) by (nonlinear_arith)
                requires
                    amount > 0,
                    total_fee_bps as int <= (u64::MAX as int) / (amount as int),
                    u64::MAX as int == amount as int * ((u64::MAX as int) / (amount as int))
                        + (u64::MAX as int) % (amount as int),
                    0 <= (u64::MAX as int) % (amount as int),
            ;
        } else {
            assert(amount as int * total_fee_bps as int == 0) by (nonlinear_arith)
                requires
                    amount as int == 0,
            ;
        }
    }
    let total_fees: u64 = (amount * total_fee_bps) / 10000;

    proof {
        lemma_div_pos_is_pos(amount as int * total_fee_bps as int, 10000);
    }
    if total_fees > 0 && protocol_fee_bps > 0 && (total_fees > u64::MAX / (protocol_fee_bps
        as u64)) {
        proof {
            let pb = protocol_fee_bps as int;
            lemma_fundamental_div_mod(u64::MAX as int, pb);
            lemma_mod_division_less_than_divisor(u64::MAX as int, pb);
            assert(total_fees as int * pb > u64::MAX) by (nonlinear_arith)
                requires
                    pb > 0,
                    total_fees as int > (u64::MAX as int) / pb,
                    u64::MAX as int == pb * ((u64::MAX as int) / pb) + (u64::MAX as int) % pb,
                    0 <= (u64::MAX as int) % pb < pb,
            ;
        }
        return Err(ErrorCode::OverflowError);
    }
    proof {
        let pb = protocol_fee_bps as int;
        if protocol_fee_bps > 0 {
            lemma_fundamental_div_mod(u64::MAX as int, pb);
            lemma_mod_division_less_than_divisor(u64::MAX as int, pb);
            assert(total_fees as int * pb <= u64::MAX) by (nonlinear_arith)
                requires
                    pb > 0,
                    total_fees as int <= (u64::MAX as int) / pb,
                    u64::MAX as int == pb * ((u64::MAX as int) / pb) + (u64::MAX as int) % pb,
                    0 <= (u64::MAX as int) % pb,
            ;
        } else {
            assert(total_fees as int * pb == 0) by (nonlinear_arith)
                requires
                    pb == 0,
            ;
        }
    }
    let protocol_fee: u64 = (total_fees * (protocol_fee_bps as u64)) / total_fee_bps;

    if total_fees > 0 && resolver_fee_bps > 0 && (total_fees > u64::MAX / (resolver_fee_bps
        as u64)) {
        proof {
            let rb = resolver_fee_bps as int;
            lemma_fundamental_div_mod(u64::MAX as int, rb);
            lemma_mod_division_less_than_divisor(u64::MAX as int, rb);
            assert(total_fees as int * rb > u64::MAX) by (nonlinear_arith)
                requires
                    rb > 0,
                    total_fees as int > (u64::MAX as int) / rb,
                    u64::MAX as int == rb * ((u64::MAX as int) / rb) + (u64::MAX as int) % rb,
                    0 <= (u64::MAX as int) % rb < rb,
            ;
        }
        return Err(ErrorCode::OverflowError);
    }
    proof {
        let rb = resolver_fee_bps as int;
        if resolver_fee_bps > 0 {
            lemma_fundamental_div_mod(u64::MAX as int, rb);
            lemma_mod_division_less_than_divisor(u64::MAX as int, rb);
            assert(total_fees as int * rb <= u64::MAX) by (nonlinear_arith)
                requires
                    rb > 0,
                    total_fees as int <= (u64::MAX as int) / rb,
                    u64::MAX as int == rb * ((u64::MAX as int) / rb) + (u64::MAX as int) % rb,
                    0 <= (u64::MAX as int) % rb,
            ;
        } else {
            assert(total_fees as int * rb == 0) by (nonlinear_arith)
                requires
                    rb == 0,
            ;
        }
    }
    let resolver_fee: u64 = (total_fees * (resolver_fee_bps as u64)) / total_fee_bps;

    proof {
        // The two proportional cuts cannot exceed the whole: their scaled
        // numerators sum to at most total * total_bps.
        let t = total_fees as int;
        let s = total_fee_bps as int;
        let pb = protocol_fee_bps as int;
        let rb = resolver_fee_bps as int;
        lemma_fundamental_div_mod(t * pb, s);
        lemma_mod_division_less_than_divisor(t * pb, s);
        lemma_fundamental_div_mod(t * rb, s);
        lemma_mod_division_less_than_divisor(t * rb, s);
        assert(t * pb / s + t * rb / s <= t) by (nonlinear_arith)
            requires
                s > 0,
                t >= 0,
                pb >= 0,
                rb >= 0,
                pb + rb <= s,
                t * pb == s * (t * pb / s) + (t * pb) % s,
                0 <= (t * pb) % s,
                t * rb == s * (t * rb / s) + (t * rb) % s,
                0 <= (t * rb) % s,
        ;
    }
    let lp_fee: u64 = (total_fees - protocol_fee) - resolver_fee;

    Ok(FeeBreakdown { protocol_fee, resolver_fee, lp_fee, total_fees })
}

/// For very small transactions the computed fee can round to zero; a floor
/// keeps micro-trades from dodging fees altogether.  This clamp is one of
/// the two intentional saturating operations of the library.
pub fn enforce_minimum_fee(calculated_fee: u64, min_fee: u64) -> (r: u64)
    ensures
        r == if calculated_fee >= min_fee {
            calculated_fee as int
        } else {
            min_fee as int
        },
{
    if calculated_fee >= min_fee {
        calculated_fee
    } else {
        min_fee
    }
}

} // verus!
