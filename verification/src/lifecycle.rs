//! The guarded lifecycle operations of a market, from creation to
//! cancellation or finalization.
//!
//! Each operation checks its authority, the current state, and its
//! time-window guards before writing anything; on any failure the market is
//! left exactly as it was.

use vstd::prelude::*;

use crate::bounded_loss::{spec_actual_loss, verify_bounded_loss};
use crate::errors::ErrorCode;
use crate::global_config::GlobalConfig;
use crate::lmsr::spec_max_loss;
use crate::market::{spec_rate_bps, AccountId, MarketAccount, MarketState};
use crate::voting::spec_flipped;

verus! {

/// How long after its creation a market accepts lifecycle timestamps:
/// ten years, in seconds.
pub const MAX_MARKET_AGE_SECONDS: i64 = 86400 * 365 * 10;

/// Creates a market in the proposed state.  The liquidity parameter and the
/// initial liquidity must be positive, and market creation pauses together
/// with trading.
pub fn create_market(
    config: &GlobalConfig,
    market_id: [u8; 32],
    creator: AccountId,
    b_parameter: u64,
    initial_liquidity: u64,
    ipfs_question_hash: [u8; 46],
    now: i64,
) -> (r: Result<MarketAccount, ErrorCode>)
    ensures
        config.is_paused ==> r == Err::<MarketAccount, ErrorCode>(ErrorCode::ProtocolPaused),
        !config.is_paused && b_parameter == 0 ==> r == Err::<MarketAccount, ErrorCode>(
            ErrorCode::InvalidBParameter,
        ),
        !config.is_paused && b_parameter > 0 && initial_liquidity == 0 ==> r == Err::<
            MarketAccount,
            ErrorCode,
        >(ErrorCode::InvalidLiquidity),
        !config.is_paused && b_parameter > 0 && initial_liquidity > 0 ==> (r matches Ok(m) && m
            == (MarketAccount {
            market_id,
            creator,
            state: MarketState::Proposed,
            b_parameter,
            initial_liquidity,
            current_liquidity: initial_liquidity,
            shares_yes: 0,
            shares_no: 0,
            total_volume: 0,
            created_at: now,
            approved_at: 0,
            activated_at: 0,
            resolution_proposed_at: 0,
            resolved_at: 0,
            finalized_at: 0,
            resolver: 0,
            proposed_outcome: None,
            final_outcome: None,
            ipfs_evidence_hash: ipfs_question_hash,
            dispute_initiated_at: 0,
            dispute_initiator: 0,
            accumulated_protocol_fees: 0,
            accumulated_resolver_fees: 0,
            accumulated_lp_fees: 0,
            proposal_likes: 0,
            proposal_dislikes: 0,
            proposal_total_votes: 0,
            resolution_agree: 0,
            resolution_disagree: 0,
            resolution_total_votes: 0,
            dispute_agree: 0,
            dispute_disagree: 0,
            dispute_total_votes: 0,
            was_disputed: false,
            is_cancelled: false,
            cancelled_at: None,
            is_locked: false,
        })),
{
    if config.is_paused {
        return Err(ErrorCode::ProtocolPaused);
    }
    if b_parameter == 0 {
        return Err(ErrorCode::InvalidBParameter);
    }
    if initial_liquidity == 0 {
        return Err(ErrorCode::InvalidLiquidity);
    }
    Ok(
        MarketAccount {
            market_id,
            creator,
            state: MarketState::Proposed,
            b_parameter,
            initial_liquidity,
            current_liquidity: initial_liquidity,
            shares_yes: 0,
            shares_no: 0,
            total_volume: 0,
            created_at: now,
            approved_at: 0,
            activated_at: 0,
            resolution_proposed_at: 0,
            resolved_at: 0,
            finalized_at: 0,
            resolver: 0,
            proposed_outcome: None,
            final_outcome: None,
            ipfs_evidence_hash: ipfs_question_hash,
            dispute_initiated_at: 0,
            dispute_initiator: 0,
            accumulated_protocol_fees: 0,
            accumulated_resolver_fees: 0,
            accumulated_lp_fees: 0,
            proposal_likes: 0,
            proposal_dislikes: 0,
            proposal_total_votes: 0,
            resolution_agree: 0,
            resolution_disagree: 0,
            resolution_total_votes: 0,
            dispute_agree: 0,
            dispute_disagree: 0,
            dispute_total_votes: 0,
            was_disputed: false,
            is_cancelled: false,
            cancelled_at: None,
            is_locked: false,
        },
    )
}

/// Approves a proposed market once its tally clears the approval threshold.
/// Only the admin may approve; the tally must exist and reach the threshold
/// inclusively.
pub fn approve_proposal(
    market: &mut MarketAccount,
    config: &GlobalConfig,
    caller: AccountId,
    now: i64,
) -> (r: Result<(), ErrorCode>)
    ensures
        caller != config.admin ==> r == Err::<(), ErrorCode>(ErrorCode::Unauthorized)
            && *final(market) == *old(market),
        caller == config.admin && old(market).state != MarketState::Proposed ==> r == Err::<
            (),
            ErrorCode,
        >(ErrorCode::InvalidStateTransition) && *final(market) == *old(market),
        caller == config.admin && old(market).state == MarketState::Proposed && old(
            market,
        ).proposal_total_votes == 0 ==> r == Err::<(), ErrorCode>(ErrorCode::NoVotesRecorded)
            && *final(market) == *old(market),
        caller == config.admin && old(market).state == MarketState::Proposed && old(
            market,
        ).proposal_total_votes > 0 && spec_rate_bps(
            old(market).proposal_likes as int,
            old(market).proposal_total_votes as int,
        ) < config.proposal_approval_threshold ==> r == Err::<(), ErrorCode>(
            ErrorCode::InsufficientVotes,
        ) && *final(market) == *old(market),
        caller == config.admin && old(market).state == MarketState::Proposed && old(
            market,
        ).proposal_total_votes > 0 && spec_rate_bps(
            old(market).proposal_likes as int,
            old(market).proposal_total_votes as int,
        ) >= config.proposal_approval_threshold ==> r == Ok::<(), ErrorCode>(())
            && *final(market) == (MarketAccount {
            state: MarketState::Approved,
            approved_at: now,
            ..*old(market)
        }),
{
    if caller != config.admin {
        return Err(ErrorCode::Unauthorized);
    }
    if !matches!(market.state, MarketState::Proposed) {
        return Err(ErrorCode::InvalidStateTransition);
    }
    if market.proposal_total_votes == 0 {
        return Err(ErrorCode::NoVotesRecorded);
    }
    let approval_bps: u128 = (market.proposal_likes as u128) * 10000 / (
    market.proposal_total_votes as u128);
    if approval_bps < config.proposal_approval_threshold as u128 {
        return Err(ErrorCode::InsufficientVotes);
    }
    market.state = MarketState::Approved;
    market.approved_at = now;
    Ok(())
}

/// Activates an approved market, opening it for trading.  The admin or the
/// creator may activate, and the pool must hold at least the initial
/// liquidity.
pub fn activate_market(
    market: &mut MarketAccount,
    config: &GlobalConfig,
    caller: AccountId,
    now: i64,
) -> (r: Result<(), ErrorCode>)
    ensures
        caller != config.admin && caller != old(market).creator ==> r == Err::<(), ErrorCode>(
            ErrorCode::Unauthorized,
        ) && *final(market) == *old(market),
        (caller == config.admin || caller == old(market).creator) && old(market).state
            != MarketState::Approved ==> r == Err::<(), ErrorCode>(
            ErrorCode::InvalidStateTransition,
        ) && *final(market) == *old(market),
        (caller == config.admin || caller == old(market).creator) && old(market).state
            == MarketState::Approved && old(market).current_liquidity < old(
            market,
        ).initial_liquidity ==> r == Err::<(), ErrorCode>(ErrorCode::InsufficientLiquidity)
            && *final(market) == *old(market),
        (caller == config.admin || caller == old(market).creator) && old(market).state
            == MarketState::Approved && old(market).current_liquidity >= old(
            market,
        ).initial_liquidity ==> r == Ok::<(), ErrorCode>(()) && *final(market)
            == (MarketAccount { state: MarketState::Active, activated_at: now, ..*old(market) }),
{
    let is_admin = caller == config.admin;
    let is_creator = caller == market.creator;
    if !is_admin && !is_creator {
        return Err(ErrorCode::Unauthorized);
    }
    if !matches!(market.state, MarketState::Approved) {
        return Err(ErrorCode::InvalidStateTransition);
    }
    if market.current_liquidity < market.initial_liquidity {
        return Err(ErrorCode::InsufficientLiquidity);
    }
    market.state = MarketState::Active;
    market.activated_at = now;
    Ok(())
}

/// Proposes a resolution for an active market, opening the dispute window.
/// Resolutions are one-shot, and the clock reading must be consistent: not
/// before creation, within ten years of it, and after activation.
pub fn resolve_market(
    market: &mut MarketAccount,
    resolver: AccountId,
    proposed_outcome: bool,
    ipfs_evidence_hash: [u8; 46],
    now: i64,
) -> (r: Result<(), ErrorCode>)
    ensures
        old(market).state != MarketState::Active ==> r == Err::<(), ErrorCode>(
            ErrorCode::InvalidMarketState,
        ) && *final(market) == *old(market),
        old(market).state == MarketState::Active && old(market).proposed_outcome is Some ==> r
            == Err::<(), ErrorCode>(ErrorCode::AlreadyResolved) && *final(market) == *old(
            market,
        ),
        old(market).state == MarketState::Active && old(market).proposed_outcome is None && (
        (now as int) < old(market).created_at || now as int > old(market).created_at
            + MAX_MARKET_AGE_SECONDS || now as int <= old(market).activated_at) ==> r == Err::<
            (),
            ErrorCode,
        >(ErrorCode::InvalidTimestamp) && *final(market) == *old(market),
        old(market).state == MarketState::Active && old(market).proposed_outcome is None && now
            as int >= old(market).created_at && now as int <= old(market).created_at
            + MAX_MARKET_AGE_SECONDS && now as int > old(market).activated_at ==> r == Ok::<
            (),
            ErrorCode,
        >(()) && *final(market) == (MarketAccount {
            state: MarketState::Resolving,
            proposed_outcome: Some(proposed_outcome),
            resolver,
            ipfs_evidence_hash,
            resolution_proposed_at: now,
            resolution_agree: 0,
            resolution_disagree: 0,
            resolution_total_votes: 0,
            ..*old(market)
        }),
{
    if !matches!(market.state, MarketState::Active) {
        return Err(ErrorCode::InvalidMarketState);
    }
    if market.proposed_outcome.is_some() {
        return Err(ErrorCode::AlreadyResolved);
    }
    if now < market.created_at {
        return Err(ErrorCode::InvalidTimestamp);
    }
    if (now as i128) > (market.created_at as i128) + (MAX_MARKET_AGE_SECONDS as i128) {
        return Err(ErrorCode::InvalidTimestamp);
    }
    if now <= market.activated_at {
        return Err(ErrorCode::InvalidTimestamp);
    }

    market.proposed_outcome = Some(proposed_outcome);
    market.resolver = resolver;
    market.ipfs_evidence_hash = ipfs_evidence_hash;
    market.resolution_proposed_at = now;
    market.resolution_agree = 0;
    market.resolution_disagree = 0;
    market.resolution_total_votes = 0;
    market.state = MarketState::Resolving;
    Ok(())
}

/// Opens a dispute against a pending resolution, inside the dispute window:
/// strictly after the resolution was proposed and strictly before the
/// window closes.  Resets the dispute tally for the vote that follows.
pub fn initiate_dispute(
    market: &mut MarketAccount,
    config: &GlobalConfig,
    initiator: AccountId,
    now: i64,
) -> (r: Result<(), ErrorCode>)
    ensures
        old(market).state != MarketState::Resolving ==> r == Err::<(), ErrorCode>(
            ErrorCode::InvalidMarketState,
        ) && *final(market) == *old(market),
        old(market).state == MarketState::Resolving && now as int <= old(
            market,
        ).resolution_proposed_at ==> r == Err::<(), ErrorCode>(ErrorCode::InvalidTimestamp)
            && *final(market) == *old(market),
        old(market).state == MarketState::Resolving && now as int > old(
            market,
        ).resolution_proposed_at && now as int >= old(market).resolution_proposed_at
            + config.dispute_period ==> r == Err::<(), ErrorCode>(ErrorCode::DisputePeriodEnded)
            && *final(market) == *old(market),
        old(market).state == MarketState::Resolving && now as int > old(
            market,
        ).resolution_proposed_at && (now as int) < old(market).resolution_proposed_at
            + config.dispute_period ==> r == Ok::<(), ErrorCode>(()) && *final(market)
            == (MarketAccount {
            state: MarketState::Disputed,
            dispute_initiator: initiator,
            dispute_initiated_at: now,
            dispute_agree: 0,
            dispute_disagree: 0,
            dispute_total_votes: 0,
            ..*old(market)
        }),
{
    if !matches!(market.state, MarketState::Resolving) {
        return Err(ErrorCode::InvalidMarketState);
    }
    if now <= market.resolution_proposed_at {
        return Err(ErrorCode::InvalidTimestamp);
    }
    if (now as i128) >= (market.resolution_proposed_at as i128) + (config.dispute_period
        as i128) {
        return Err(ErrorCode::DisputePeriodEnded);
    }

    market.dispute_initiator = initiator;
    market.dispute_initiated_at = now;
    market.dispute_agree = 0;
    market.dispute_disagree = 0;
    market.dispute_total_votes = 0;
    market.state = MarketState::Disputed;
    Ok(())
}

/// Whether the timestamp guards of finalization pass: at or after creation,
/// within ten years of it, and strictly after the resolution proposal.
pub open spec fn spec_finalize_time_ok(m: MarketAccount, now: int) -> bool {
    &&& now >= m.created_at
    &&& now <= m.created_at + MAX_MARKET_AGE_SECONDS
    &&& now > m.resolution_proposed_at
}

/// Sets the final outcome, from the resolving state once the dispute window
/// has lapsed, or from the disputed state using the submitted tallies: a
/// tally at or above the dispute threshold flips the proposed outcome, any
/// other keeps it.  Only the configured aggregator may finalize, and every
/// path runs the bounded-loss verifier before committing.
pub fn finalize_market(
    market: &mut MarketAccount,
    config: &GlobalConfig,
    caller: AccountId,
    dispute_agree: Option<u32>,
    dispute_disagree: Option<u32>,
    now: i64,
) -> (r: Result<(), ErrorCode>)
    ensures
        caller != config.backend_authority ==> r == Err::<(), ErrorCode>(
            ErrorCode::Unauthorized,
        ) && *final(market) == *old(market),
        caller == config.backend_authority && old(market).state != MarketState::Resolving
            && old(market).state != MarketState::Disputed ==> r == Err::<(), ErrorCode>(
            ErrorCode::InvalidMarketState,
        ) && *final(market) == *old(market),
        caller == config.backend_authority && (old(market).state == MarketState::Resolving
            || old(market).state == MarketState::Disputed) && !spec_finalize_time_ok(
            *old(market),
            now as int,
        ) ==> r == Err::<(), ErrorCode>(ErrorCode::InvalidTimestamp) && *final(market) == *old(
            market,
        ),
        caller == config.backend_authority && old(market).state == MarketState::Disputed
            && spec_finalize_time_ok(*old(market), now as int) && (dispute_agree is None
            || dispute_disagree is None) ==> r == Err::<(), ErrorCode>(
            ErrorCode::NoVotesRecorded,
        ) && *final(market) == *old(market),
        caller == config.backend_authority && old(market).state == MarketState::Disputed
            && spec_finalize_time_ok(*old(market), now as int) && dispute_agree is Some
            && dispute_disagree is Some ==> ({
            let a = dispute_agree.unwrap();
            let d = dispute_disagree.unwrap();
            let total = a + d;
            &&& (total > u32::MAX ==> r == Err::<(), ErrorCode>(ErrorCode::OverflowError)
                && *final(market) == *old(market))
            &&& (total == 0 ==> r == Err::<(), ErrorCode>(ErrorCode::NoVotesRecorded)
                && *final(market) == *old(market))
            &&& (0 < total <= u32::MAX ==> ({
                let flips = spec_rate_bps(a as int, total as int)
                    >= config.dispute_success_threshold;
                let outcome = if flips {
                    spec_flipped(old(market).proposed_outcome)
                } else {
                    old(market).proposed_outcome
                };
                finalize_commit_or_loss_error(*old(market), *final(market), r, a, d, outcome, now
                    as int)
            }))
        }),
        caller == config.backend_authority && old(market).state == MarketState::Resolving
            && spec_finalize_time_ok(*old(market), now as int) ==> ({
            &&& ((now as int) < old(market).resolution_proposed_at + config.dispute_period
                ==> r == Err::<(), ErrorCode>(ErrorCode::DisputePeriodNotEnded)
                && *final(market) == *old(market))
            &&& (now as int >= old(market).resolution_proposed_at + config.dispute_period
                ==> resolving_commit_or_loss_error(*old(market), *final(market), r, now as int))
        }),
{
    if caller != config.backend_authority {
        return Err(ErrorCode::Unauthorized);
    }
    let is_disputed = matches!(market.state, MarketState::Disputed);
    if !matches!(market.state, MarketState::Resolving) && !is_disputed {
        return Err(ErrorCode::InvalidMarketState);
    }
    if now < market.created_at {
        return Err(ErrorCode::InvalidTimestamp);
    }
    if (now as i128) > (market.created_at as i128) + (MAX_MARKET_AGE_SECONDS as i128) {
        return Err(ErrorCode::InvalidTimestamp);
    }
    if now <= market.resolution_proposed_at {
        return Err(ErrorCode::InvalidTimestamp);
    }

    if is_disputed {
        let agree = match dispute_agree {
            Some(a) => a,
            None => {
                return Err(ErrorCode::NoVotesRecorded);
            },
        };
        let disagree = match dispute_disagree {
            Some(d) => d,
            None => {
                return Err(ErrorCode::NoVotesRecorded);
            },
        };
        if agree > u32::MAX - disagree {
            return Err(ErrorCode::OverflowError);
        }
        let total: u32 = agree + disagree;
        if total == 0 {
            return Err(ErrorCode::NoVotesRecorded);
        }

        match verify_bounded_loss(
            market.initial_liquidity,
            market.current_liquidity,
            market.b_parameter,
        ) {
            Ok(()) => {},
            Err(e) => {
                return Err(e);
            },
        }

        let agree_rate_bps: u128 = (agree as u128) * 10000 / (total as u128);
        let final_outcome: Option<bool>;
        if agree_rate_bps >= config.dispute_success_threshold as u128 {
            final_outcome = match market.proposed_outcome {
                Some(true) => Some(false),
                Some(false) => Some(true),
                None => None,
            };
        } else {
            final_outcome = market.proposed_outcome;
        }

        market.dispute_agree = agree;
        market.dispute_disagree = disagree;
        market.dispute_total_votes = total;
        market.final_outcome = final_outcome;
        market.was_disputed = true;
        market.finalized_at = now;
        market.state = MarketState::Finalized;
        Ok(())
    } else {
        if (now as i128) < (market.resolution_proposed_at as i128) + (config.dispute_period
            as i128) {
            return Err(ErrorCode::DisputePeriodNotEnded);
        }

        match verify_bounded_loss(
            market.initial_liquidity,
            market.current_liquidity,
            market.b_parameter,
        ) {
            Ok(()) => {},
            Err(e) => {
                return Err(e);
            },
        }

        market.final_outcome = market.proposed_outcome;
        market.was_disputed = false;
        market.finalized_at = now;
        market.state = MarketState::Finalized;
        Ok(())
    }
}

/// The disputed-path commit of finalization: either the bounded-loss
/// verifier rejects the whole step, or the tallies, the outcome and the
/// terminal state are all written.
pub open spec fn finalize_commit_or_loss_error(
    before: MarketAccount,
    after: MarketAccount,
    r: Result<(), ErrorCode>,
    agree: u32,
    disagree: u32,
    outcome: Option<bool>,
    now: int,
) -> bool {
    if spec_actual_loss(before.initial_liquidity as int, before.current_liquidity as int)
        > spec_max_loss(before.b_parameter as int) {
        r == Err::<(), ErrorCode>(ErrorCode::BoundedLossExceeded) && after == before
    } else {
        r == Ok::<(), ErrorCode>(()) && after == (MarketAccount {
            dispute_agree: agree,
            dispute_disagree: disagree,
            dispute_total_votes: (agree + disagree) as u32,
            final_outcome: outcome,
            was_disputed: true,
            finalized_at: now as i64,
            state: MarketState::Finalized,
            ..before
        })
    }
}

/// The undisputed-path commit of finalization: either the bounded-loss
/// verifier rejects the whole step, or the proposed outcome becomes final.
pub open spec fn resolving_commit_or_loss_error(
    before: MarketAccount,
    after: MarketAccount,
    r: Result<(), ErrorCode>,
    now: int,
) -> bool {
    if spec_actual_loss(before.initial_liquidity as int, before.current_liquidity as int)
        > spec_max_loss(before.b_parameter as int) {
        r == Err::<(), ErrorCode>(ErrorCode::BoundedLossExceeded) && after == before
    } else {
        r == Ok::<(), ErrorCode>(()) && after == (MarketAccount {
            final_outcome: before.proposed_outcome,
            was_disputed: false,
            finalized_at: now as i64,
            state: MarketState::Finalized,
            ..before
        })
    }
}

/// Cancels a proposed or approved market.  Admin-only and irreversible;
/// markets that ever traded cannot be cancelled.
pub fn cancel_market(
    market: &mut MarketAccount,
    config: &GlobalConfig,
    caller: AccountId,
    now: i64,
) -> (r: Result<(), ErrorCode>)
    ensures
        caller != config.admin ==> r == Err::<(), ErrorCode>(ErrorCode::Unauthorized)
            && *final(market) == *old(market),
        caller == config.admin && old(market).state == MarketState::Cancelled ==> r == Err::<
            (),
            ErrorCode,
        >(ErrorCode::MarketAlreadyCancelled) && *final(market) == *old(market),
        caller == config.admin && old(market).state != MarketState::Cancelled && old(
            market,
        ).state != MarketState::Proposed && old(market).state != MarketState::Approved ==> r
            == Err::<(), ErrorCode>(ErrorCode::CannotCancelMarket) && *final(market) == *old(
            market,
        ),
        caller == config.admin && (old(market).state == MarketState::Proposed || old(
            market,
        ).state == MarketState::Approved) ==> r == Ok::<(), ErrorCode>(()) && *final(market)
            == (MarketAccount {
            state: MarketState::Cancelled,
            is_cancelled: true,
            cancelled_at: Some(now),
            ..*old(market)
        }),
{
    if caller != config.admin {
        return Err(ErrorCode::Unauthorized);
    }
    if matches!(market.state, MarketState::Cancelled) {
        return Err(ErrorCode::MarketAlreadyCancelled);
    }
    if !matches!(market.state, MarketState::Proposed) && !matches!(
        market.state,
        MarketState::Approved,
    ) {
        return Err(ErrorCode::CannotCancelMarket);
    }
    market.state = MarketState::Cancelled;
    market.is_cancelled = true;
    market.cancelled_at = Some(now);
    Ok(())
}

} // verus!
