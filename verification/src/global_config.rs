//! Protocol-wide configuration.
//!
//! One record per deployment: fee rates, vote thresholds, time limits,
//! authorities and the emergency pause flag.  It is created once with
//! defaults and mutated only through the atomic, fully revalidated update
//! operation in [`crate::admin`].

use vstd::prelude::*;

use crate::errors::ErrorCode;
use crate::market::AccountId;

verus! {

/// Protocol-wide settings and authorities.
#[derive(Clone, Debug)]
pub struct GlobalConfig {
    /// The admin: may update the configuration, pause, approve, cancel.
    pub admin: AccountId,
    /// The vote aggregator: may submit final tallies and finalize.
    pub backend_authority: AccountId,
    /// Where the protocol's fee share is sent.
    pub protocol_fee_wallet: AccountId,
    /// Protocol fee rate, basis points.
    pub protocol_fee_bps: u16,
    /// Resolver reward rate, basis points.
    pub resolver_reward_bps: u16,
    /// Liquidity-provider fee rate, basis points.
    pub liquidity_provider_fee_bps: u16,
    /// Proposal approval threshold, basis points, compared inclusively.
    pub proposal_approval_threshold: u16,
    /// Dispute success threshold, basis points, compared inclusively.
    pub dispute_success_threshold: u16,
    /// Seconds a resolution must rest before it can be finalized.
    pub min_resolution_delay: i64,
    /// Seconds the dispute window stays open.
    pub dispute_period: i64,
    /// Minimum resolver reputation, basis points.
    pub min_resolver_reputation: u16,
    /// The emergency pause flag: blocks trading when set.
    pub is_paused: bool,
}

/// The configuration invariants: fees sum to at most 100%, every threshold
/// is at most 100%, and both time limits are positive.
pub open spec fn spec_config_valid(c: GlobalConfig) -> bool {
    &&& c.protocol_fee_bps + c.resolver_reward_bps + c.liquidity_provider_fee_bps <= 10000
    &&& c.proposal_approval_threshold <= 10000
    &&& c.dispute_success_threshold <= 10000
    &&& c.min_resolver_reputation <= 10000
    &&& c.min_resolution_delay > 0
    &&& c.dispute_period > 0
}

impl GlobalConfig {
    /// Checks every configuration invariant, reporting the first violation:
    /// an oversized fee sum, then an oversized threshold, then a
    /// non-positive time limit.
    pub fn validate(&self) -> (r: Result<(), ErrorCode>)
        ensures
            r is Ok <==> spec_config_valid(*self),
            self.protocol_fee_bps + self.resolver_reward_bps + self.liquidity_provider_fee_bps
                > 10000 ==> r == Err::<(), ErrorCode>(ErrorCode::InvalidFeeConfiguration),
            self.protocol_fee_bps + self.resolver_reward_bps + self.liquidity_provider_fee_bps
                <= 10000 && (self.proposal_approval_threshold > 10000
                || self.dispute_success_threshold > 10000 || self.min_resolver_reputation
                > 10000) ==> r == Err::<(), ErrorCode>(ErrorCode::InvalidThreshold),
            self.protocol_fee_bps + self.resolver_reward_bps + self.liquidity_provider_fee_bps
                <= 10000 && self.proposal_approval_threshold <= 10000
                && self.dispute_success_threshold <= 10000 && self.min_resolver_reputation
                <= 10000 && (self.min_resolution_delay <= 0 || self.dispute_period <= 0) ==> r
                == Err::<(), ErrorCode>(ErrorCode::InvalidTimeLimit),
    {
        let total_fee: u32 = (self.protocol_fee_bps as u32) + (self.resolver_reward_bps as u32)
            + (self.liquidity_provider_fee_bps as u32);
        if total_fee > 10000 {
            return Err(ErrorCode::InvalidFeeConfiguration);
        }
        if self.proposal_approval_threshold > 10000 {
            return Err(ErrorCode::InvalidThreshold);
        }
        if self.dispute_success_threshold > 10000 {
            return Err(ErrorCode::InvalidThreshold);
        }
        if self.min_resolver_reputation > 10000 {
            return Err(ErrorCode::InvalidThreshold);
        }
        if self.min_resolution_delay <= 0 {
            return Err(ErrorCode::InvalidTimeLimit);
        }
        if self.dispute_period <= 0 {
            return Err(ErrorCode::InvalidTimeLimit);
        }
        Ok(())
    }

    /// The combined fee rate.  Mirrors the stepwise 16-bit addition, so a
    /// sum that does not fit `u16` is an overflow even though the three
    /// rates are individually fine.
    pub fn total_fee_bps(&self) -> (r: Result<u16, ErrorCode>)
        ensures
            r is Ok <==> self.protocol_fee_bps + self.resolver_reward_bps
                + self.liquidity_provider_fee_bps <= u16::MAX,
            r matches Ok(v) ==> v == self.protocol_fee_bps + self.resolver_reward_bps
                + self.liquidity_provider_fee_bps,
            r matches Err(e) ==> e == ErrorCode::OverflowError,
    {
        let total: u32 = (self.protocol_fee_bps as u32) + (self.resolver_reward_bps as u32) + (
        self.liquidity_provider_fee_bps as u32);
        if total <= u16::MAX as u32 {
            Ok(total as u16)
        } else {
            Err(ErrorCode::OverflowError)
        }
    }

    /// One fee at a given rate: `amount * bps / 10000` in a 128-bit
    /// intermediate, an overflow when the result does not fit back.
    pub fn calculate_fee(&self, amount: u64, bps: u16) -> (r: Result<u64, ErrorCode>)
        ensures
            r is Ok <==> amount as int * bps as int / 10000 <= u64::MAX,
            r matches Ok(v) ==> v == amount as int * bps as int / 10000,
            r matches Err(e) ==> e == ErrorCode::OverflowError,
    {
        proof {
            assert((amount as u128) * (bps as u128) <= u128::MAX) by (nonlinear_arith);
        }
        let fee: u128 = (amount as u128) * (bps as u128) / 10000;
        if fee <= u64::MAX as u128 {
            Ok(fee as u64)
        } else {
            Err(ErrorCode::OverflowError)
        }
    }

    /// The naive per-component split `(protocol, resolver, lp)`: three
    /// independent truncating divisions.  Unlike
    /// [`crate::fees::calculate_fees_accurate`] the parts may sum to less
    /// than a single-division total; trading uses the exact splitter, and
    /// this remains the simple per-rate quote.
    pub fn calculate_fees(&self, amount: u64) -> (r: Result<(u64, u64, u64), ErrorCode>)
        ensures
            r is Ok <==> (amount as int * self.protocol_fee_bps as int / 10000 <= u64::MAX
                && amount as int * self.resolver_reward_bps as int / 10000 <= u64::MAX
                && amount as int * self.liquidity_provider_fee_bps as int / 10000 <= u64::MAX),
            r matches Ok(v) ==> v.0 == amount as int * self.protocol_fee_bps as int / 10000
                && v.1 == amount as int * self.resolver_reward_bps as int / 10000 && v.2
                == amount as int * self.liquidity_provider_fee_bps as int / 10000,
            r matches Err(e) ==> e == ErrorCode::OverflowError,
    {
        let protocol_fee = match self.calculate_fee(amount, self.protocol_fee_bps) {
            Ok(v) => v,
            Err(e) => {
                return Err(e);
            },
        };
        let resolver_fee = match self.calculate_fee(amount, self.resolver_reward_bps) {
            Ok(v) => v,
            Err(e) => {
                return Err(e);
            },
        };
        let lp_fee = match self.calculate_fee(amount, self.liquidity_provider_fee_bps) {
            Ok(v) => v,
            Err(e) => {
                return Err(e);
            },
        };
        Ok((protocol_fee, resolver_fee, lp_fee))
    }
}

} // verus!
