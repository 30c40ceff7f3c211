//! Reserve-floor arithmetic for value transfers.
//!
//! Every account that holds market funds must keep a rent reserve so the
//! host does not reclaim it.  The embedding program reads the balance and
//! the reserve floor; these functions decide, over those plain values, how
//! much may leave an account and whether a given transfer is allowed.

use vstd::prelude::*;

use crate::errors::ErrorCode;

verus! {

/// Whether a balance meets its reserve floor.
pub fn is_rent_exempt(balance: u64, rent_exempt_minimum: u64) -> (r: bool)
    ensures
        r <==> balance >= rent_exempt_minimum,
{
    balance >= rent_exempt_minimum
}

/// The most that can leave an account without dropping it below its reserve
/// floor: zero when the balance is already at or below the floor, the
/// difference otherwise.  Never negative, never a panic.
pub fn max_transferable_amount(balance: u64, rent_exempt_minimum: u64) -> (r: u64)
    ensures
        balance <= rent_exempt_minimum ==> r == 0,
        balance > rent_exempt_minimum ==> r == balance - rent_exempt_minimum,
        balance - r >= rent_exempt_minimum || r == 0,
{
    if balance <= rent_exempt_minimum {
        0
    } else {
        balance - rent_exempt_minimum
    }
}

/// Validates a transfer of `amount` out of an account: the balance must
/// cover the amount, and what remains must still meet the reserve floor.
/// Returns the balance after the transfer.
pub fn check_transfer_keeps_reserve(
    balance: u64,
    rent_exempt_minimum: u64,
    amount: u64,
) -> (r: Result<u64, ErrorCode>)
    ensures
        balance < amount ==> r == Err::<u64, ErrorCode>(ErrorCode::InsufficientFunds),
        balance >= amount && balance - amount < rent_exempt_minimum ==> r == Err::<
            u64,
            ErrorCode,
        >(ErrorCode::WouldBreakRentExemption),
        balance >= amount && balance - amount >= rent_exempt_minimum ==> r == Ok::<
            u64,
            ErrorCode,
        >((balance - amount) as u64),
        r matches Ok(after) ==> after >= rent_exempt_minimum,
{
    if balance < amount {
        return Err(ErrorCode::InsufficientFunds);
    }
    let after = balance - amount;
    if after >= rent_exempt_minimum {
        Ok(after)
    } else {
        Err(ErrorCode::WouldBreakRentExemption)
    }
}

} // verus!
