//! Administrative operations: configuration setup, atomic reconfiguration,
//! and the emergency pause.

use vstd::prelude::*;

use crate::errors::ErrorCode;
use crate::global_config::{spec_config_valid, GlobalConfig};
use crate::market::AccountId;

verus! {

/// Creates the one configuration record of a deployment, with the default
/// rates and limits: 3% / 2% / 5% fees, 70% proposal and 60% dispute
/// thresholds, a day of resolution delay, a three-day dispute window, and
/// trading unpaused.
pub fn initialize_global_config(
    admin: AccountId,
    backend_authority: AccountId,
    protocol_fee_wallet: AccountId,
) -> (r: GlobalConfig)
    ensures
        r.admin == admin,
        r.backend_authority == backend_authority,
        r.protocol_fee_wallet == protocol_fee_wallet,
        r.protocol_fee_bps == 300,
        r.resolver_reward_bps == 200,
        r.liquidity_provider_fee_bps == 500,
        r.proposal_approval_threshold == 7000,
        r.dispute_success_threshold == 6000,
        r.min_resolution_delay == 86400,
        r.dispute_period == 259200,
        r.min_resolver_reputation == 8000,
        !r.is_paused,
        spec_config_valid(r),
{
    GlobalConfig {
        admin,
        backend_authority,
        protocol_fee_wallet,
        protocol_fee_bps: 300,
        resolver_reward_bps: 200,
        liquidity_provider_fee_bps: 500,
        proposal_approval_threshold: 7000,
        dispute_success_threshold: 6000,
        min_resolution_delay: 86400,
        dispute_period: 259200,
        min_resolver_reputation: 8000,
        is_paused: false,
    }
}

/// Updates the fee rates and thresholds, and optionally the time limits, in
/// one atomic validate-then-write step: either every check passes and every
/// field is written, or nothing changes.
pub fn update_global_config(
    config: &mut GlobalConfig,
    caller: AccountId,
    protocol_fee_bps: u16,
    resolver_reward_bps: u16,
    liquidity_provider_fee_bps: u16,
    proposal_approval_threshold: u16,
    dispute_success_threshold: u16,
    min_resolution_delay: Option<i64>,
    dispute_period: Option<i64>,
) -> (r: Result<(), ErrorCode>)
    ensures
        caller != old(config).admin ==> r == Err::<(), ErrorCode>(ErrorCode::Unauthorized)
            && *final(config) == *old(config),
        caller == old(config).admin && protocol_fee_bps + resolver_reward_bps
            + liquidity_provider_fee_bps > 10000 ==> r == Err::<(), ErrorCode>(
            ErrorCode::InvalidFeeStructure,
        ) && *final(config) == *old(config),
        caller == old(config).admin && protocol_fee_bps + resolver_reward_bps
            + liquidity_provider_fee_bps <= 10000 && (proposal_approval_threshold > 10000
            || dispute_success_threshold > 10000) ==> r == Err::<(), ErrorCode>(
            ErrorCode::InvalidThreshold,
        ) && *final(config) == *old(config),
        caller == old(config).admin && protocol_fee_bps + resolver_reward_bps
            + liquidity_provider_fee_bps <= 10000 && proposal_approval_threshold <= 10000
            && dispute_success_threshold <= 10000 && ((min_resolution_delay matches Some(d)
            && d <= 0) || (dispute_period matches Some(p) && p <= 0)) ==> r == Err::<
            (),
            ErrorCode,
        >(ErrorCode::InvalidTimeLimit) && *final(config) == *old(config),
        caller == old(config).admin && protocol_fee_bps + resolver_reward_bps
            + liquidity_provider_fee_bps <= 10000 && proposal_approval_threshold <= 10000
            && dispute_success_threshold <= 10000 && !(min_resolution_delay matches Some(d)
            && d <= 0) && !(dispute_period matches Some(p) && p <= 0) ==> r == Ok::<
            (),
            ErrorCode,
        >(()) && *final(config) == (GlobalConfig {
            protocol_fee_bps,
            resolver_reward_bps,
            liquidity_provider_fee_bps,
            proposal_approval_threshold,
            dispute_success_threshold,
            min_resolution_delay: match min_resolution_delay {
                Some(d) => d,
                None => old(config).min_resolution_delay,
            },
            dispute_period: match dispute_period {
                Some(p) => p,
                None => old(config).dispute_period,
            },
            ..*old(config)
        }),
{
    if caller != config.admin {
        return Err(ErrorCode::Unauthorized);
    }

    let total_fee: u32 = (protocol_fee_bps as u32) + (resolver_reward_bps as u32) + (
    liquidity_provider_fee_bps as u32);
    if total_fee > 10000 {
        return Err(ErrorCode::InvalidFeeStructure);
    }
    if proposal_approval_threshold > 10000 {
        return Err(ErrorCode::InvalidThreshold);
    }
    if dispute_success_threshold > 10000 {
        return Err(ErrorCode::InvalidThreshold);
    }
    match min_resolution_delay {
        Some(d) => {
            if d <= 0 {
                return Err(ErrorCode::InvalidTimeLimit);
            }
        },
        None => {},
    }
    match dispute_period {
        Some(p) => {
            if p <= 0 {
                return Err(ErrorCode::InvalidTimeLimit);
            }
        },
        None => {},
    }

    config.protocol_fee_bps = protocol_fee_bps;
    config.resolver_reward_bps = resolver_reward_bps;
    config.liquidity_provider_fee_bps = liquidity_provider_fee_bps;
    config.proposal_approval_threshold = proposal_approval_threshold;
    config.dispute_success_threshold = dispute_success_threshold;
    match min_resolution_delay {
        Some(d) => {
            config.min_resolution_delay = d;
        },
        None => {},
    }
    match dispute_period {
        Some(p) => {
            config.dispute_period = p;
        },
        None => {},
    }
    Ok(())
}

/// Toggles the protocol-wide trading pause.  Pausing blocks trading and
/// market creation; voting and resolution continue.  Returns the new state.
pub fn emergency_pause(config: &mut GlobalConfig, caller: AccountId) -> (r: Result<
    bool,
    ErrorCode,
>)
    ensures
        caller != old(config).admin ==> r == Err::<bool, ErrorCode>(ErrorCode::Unauthorized)
            && *final(config) == *old(config),
        caller == old(config).admin ==> r == Ok::<bool, ErrorCode>(!old(config).is_paused)
            && *final(config) == (GlobalConfig { is_paused: !old(config).is_paused, ..*old(
            config,
        ) }),
{
    if caller != config.admin {
        return Err(ErrorCode::Unauthorized);
    }
    let new_paused_state = !config.is_paused;
    config.is_paused = new_paused_state;
    Ok(new_paused_state)
}

} // verus!
