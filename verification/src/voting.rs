//! The vote aggregator: individual ballots into the ledger, and authorized
//! batch tallies that drive the lifecycle machine.
//!
//! Ballots are collected off the core's path; the core only records each
//! ballot once and trusts the configured aggregator for the final tallies.
//! A tally at or above the threshold is a one-way trigger; below it, the
//! market stays where it is and may be re-aggregated.

use vstd::prelude::*;

use crate::bounded_loss::{spec_actual_loss, verify_bounded_loss};
use crate::errors::ErrorCode;
use crate::global_config::GlobalConfig;
use crate::lmsr::spec_max_loss;
use crate::market::{spec_rate_bps, AccountId, MarketAccount, MarketState};
use crate::vote_record::{spec_has_vote, VoteLedger, VoteRecord, VoteType};

verus! {

/// The outcome with YES and NO exchanged; an invalid outcome stays invalid.
pub open spec fn spec_flipped(outcome: Option<bool>) -> Option<bool> {
    match outcome {
        Some(v) => Some(!v),
        None => None,
    }
}

/// Records one ballot on a market proposal.  The market must still be in
/// its proposal phase, and the ledger rejects a second ballot by the same
/// voter.
pub fn submit_proposal_vote(
    ledger: &mut VoteLedger,
    market: &MarketAccount,
    market_key: AccountId,
    user: AccountId,
    vote: bool,
    now: i64,
) -> (r: Result<VoteRecord, ErrorCode>)
    ensures
        market.state != MarketState::Proposed ==> r == Err::<VoteRecord, ErrorCode>(
            ErrorCode::InvalidStateForVoting,
        ) && final(ledger).records@ =~= old(ledger).records@,
        market.state == MarketState::Proposed && spec_has_vote(
            old(ledger).records@,
            market_key,
            user,
            VoteType::Proposal,
        ) ==> r == Err::<VoteRecord, ErrorCode>(ErrorCode::AlreadyVoted)
            && final(ledger).records@ =~= old(ledger).records@,
        market.state == MarketState::Proposed && !spec_has_vote(
            old(ledger).records@,
            market_key,
            user,
            VoteType::Proposal,
        ) ==> (r matches Ok(rec) && rec == (VoteRecord {
            market: market_key,
            user,
            vote_type: VoteType::Proposal,
            vote,
            voted_at: now,
        }) && final(ledger).records@ =~= old(ledger).records@.push(rec)),
{
    if !matches!(market.state, MarketState::Proposed) {
        return Err(ErrorCode::InvalidStateForVoting);
    }
    let record = VoteRecord {
        market: market_key,
        user,
        vote_type: VoteType::Proposal,
        vote,
        voted_at: now,
    };
    match ledger.record_vote(record) {
        Ok(()) => Ok(record),
        Err(e) => Err(e),
    }
}

/// Records one ballot on a dispute.  The market must currently be disputed,
/// and the ledger rejects a second ballot by the same voter.
pub fn submit_dispute_vote(
    ledger: &mut VoteLedger,
    market: &MarketAccount,
    market_key: AccountId,
    user: AccountId,
    vote: bool,
    now: i64,
) -> (r: Result<VoteRecord, ErrorCode>)
    ensures
        market.state != MarketState::Disputed ==> r == Err::<VoteRecord, ErrorCode>(
            ErrorCode::InvalidStateForVoting,
        ) && final(ledger).records@ =~= old(ledger).records@,
        market.state == MarketState::Disputed && spec_has_vote(
            old(ledger).records@,
            market_key,
            user,
            VoteType::Dispute,
        ) ==> r == Err::<VoteRecord, ErrorCode>(ErrorCode::AlreadyVoted)
            && final(ledger).records@ =~= old(ledger).records@,
        market.state == MarketState::Disputed && !spec_has_vote(
            old(ledger).records@,
            market_key,
            user,
            VoteType::Dispute,
        ) ==> (r matches Ok(rec) && rec == (VoteRecord {
            market: market_key,
            user,
            vote_type: VoteType::Dispute,
            vote,
            voted_at: now,
        }) && final(ledger).records@ =~= old(ledger).records@.push(rec)),
{
    if !matches!(market.state, MarketState::Disputed) {
        return Err(ErrorCode::InvalidStateForVoting);
    }
    let record = VoteRecord {
        market: market_key,
        user,
        vote_type: VoteType::Dispute,
        vote,
        voted_at: now,
    };
    match ledger.record_vote(record) {
        Ok(()) => Ok(record),
        Err(e) => Err(e),
    }
}

/// Records the aggregator's final proposal tallies and, when the in-favour
/// share reaches the approval threshold (inclusive, and never on zero
/// votes), steps the market to approved.  Below the threshold the market
/// stays proposed and may be re-aggregated later.  Returns whether the
/// proposal was approved.
pub fn aggregate_proposal_votes(
    market: &mut MarketAccount,
    config: &GlobalConfig,
    caller: AccountId,
    final_likes: u32,
    final_dislikes: u32,
    now: i64,
) -> (r: Result<bool, ErrorCode>)
    ensures
        old(market).state != MarketState::Proposed ==> r == Err::<bool, ErrorCode>(
            ErrorCode::InvalidStateForVoting,
        ) && *final(market) == *old(market),
        old(market).state == MarketState::Proposed && caller != config.backend_authority ==> r
            == Err::<bool, ErrorCode>(ErrorCode::Unauthorized)
            && *final(market) == *old(market),
        old(market).state == MarketState::Proposed && caller == config.backend_authority
            && final_likes + final_dislikes > u32::MAX ==> r == Err::<bool, ErrorCode>(
            ErrorCode::OverflowError,
        ) && *final(market) == *old(market),
        old(market).state == MarketState::Proposed && caller == config.backend_authority
            && final_likes + final_dislikes <= u32::MAX ==> ({
            let total = final_likes + final_dislikes;
            let approved = total > 0 && spec_rate_bps(final_likes as int, total as int)
                >= config.proposal_approval_threshold;
            &&& r == Ok::<bool, ErrorCode>(approved)
            &&& (approved ==> *final(market) == (MarketAccount {
                proposal_likes: final_likes,
                proposal_dislikes: final_dislikes,
                proposal_total_votes: (final_likes + final_dislikes) as u32,
                state: MarketState::Approved,
                approved_at: now,
                ..*old(market)
            }))
            &&& (!approved ==> *final(market) == (MarketAccount {
                proposal_likes: final_likes,
                proposal_dislikes: final_dislikes,
                proposal_total_votes: (final_likes + final_dislikes) as u32,
                ..*old(market)
            }))
        }),
{
    if !matches!(market.state, MarketState::Proposed) {
        return Err(ErrorCode::InvalidStateForVoting);
    }
    if caller != config.backend_authority {
        return Err(ErrorCode::Unauthorized);
    }
    if final_likes > u32::MAX - final_dislikes {
        return Err(ErrorCode::OverflowError);
    }
    let total_votes: u32 = final_likes + final_dislikes;

    market.proposal_likes = final_likes;
    market.proposal_dislikes = final_dislikes;
    market.proposal_total_votes = total_votes;

    let approved: bool;
    if total_votes > 0 {
        let likes_bps: u128 = (final_likes as u128) * 10000 / (total_votes as u128);
        approved = likes_bps >= config.proposal_approval_threshold as u128;
    } else {
        approved = false;
    }

    if approved {
        market.state = MarketState::Approved;
        market.approved_at = now;
    }
    Ok(approved)
}

/// Records the aggregator's final dispute tallies.  When the agreeing share
/// reaches the dispute threshold (inclusive, and never on zero votes) the
/// dispute succeeds: the proposed outcome flips — YES and NO exchange, an
/// invalid outcome stays invalid — and the market finalizes, after the
/// bounded-loss verifier has passed.  Below the threshold the tallies are
/// recorded and the market stays disputed for a later aggregation.  Returns
/// whether the dispute succeeded.
pub fn aggregate_dispute_votes(
    market: &mut MarketAccount,
    config: &GlobalConfig,
    caller: AccountId,
    final_agrees: u32,
    final_disagrees: u32,
    now: i64,
) -> (r: Result<bool, ErrorCode>)
    ensures
        old(market).state != MarketState::Disputed ==> r == Err::<bool, ErrorCode>(
            ErrorCode::InvalidStateForVoting,
        ) && *final(market) == *old(market),
        old(market).state == MarketState::Disputed && caller != config.backend_authority ==> r
            == Err::<bool, ErrorCode>(ErrorCode::Unauthorized)
            && *final(market) == *old(market),
        old(market).state == MarketState::Disputed && caller == config.backend_authority
            && final_agrees + final_disagrees > u32::MAX ==> r == Err::<bool, ErrorCode>(
            ErrorCode::OverflowError,
        ) && *final(market) == *old(market),
        old(market).state == MarketState::Disputed && caller == config.backend_authority
            && final_agrees + final_disagrees <= u32::MAX ==> ({
            let total = final_agrees + final_disagrees;
            let succeeded = total > 0 && spec_rate_bps(final_agrees as int, total as int)
                >= config.dispute_success_threshold;
            &&& (succeeded && spec_actual_loss(
                old(market).initial_liquidity as int,
                old(market).current_liquidity as int,
            ) > spec_max_loss(old(market).b_parameter as int) ==> r == Err::<bool, ErrorCode>(
                ErrorCode::BoundedLossExceeded,
            ) && *final(market) == *old(market))
            &&& (succeeded && spec_actual_loss(
                old(market).initial_liquidity as int,
                old(market).current_liquidity as int,
            ) <= spec_max_loss(old(market).b_parameter as int) ==> r == Ok::<bool, ErrorCode>(
                true,
            ) && *final(market) == (MarketAccount {
                dispute_agree: final_agrees,
                dispute_disagree: final_disagrees,
                dispute_total_votes: (final_agrees + final_disagrees) as u32,
                state: MarketState::Finalized,
                final_outcome: spec_flipped(old(market).proposed_outcome),
                was_disputed: true,
                finalized_at: now,
                ..*old(market)
            }))
            &&& (!succeeded ==> r == Ok::<bool, ErrorCode>(false) && *final(market)
                == (MarketAccount {
                dispute_agree: final_agrees,
                dispute_disagree: final_disagrees,
                dispute_total_votes: (final_agrees + final_disagrees) as u32,
                was_disputed: true,
                ..*old(market)
            }))
        }),
{
    if !matches!(market.state, MarketState::Disputed) {
        return Err(ErrorCode::InvalidStateForVoting);
    }
    if caller != config.backend_authority {
        return Err(ErrorCode::Unauthorized);
    }
    if final_agrees > u32::MAX - final_disagrees {
        return Err(ErrorCode::OverflowError);
    }
    let total_votes: u32 = final_agrees + final_disagrees;

    let succeeded: bool;
    if total_votes > 0 {
        let agree_bps: u128 = (final_agrees as u128) * 10000 / (total_votes as u128);
        succeeded = agree_bps >= config.dispute_success_threshold as u128;
    } else {
        succeeded = false;
    }

    if succeeded {
        // A transition into the finalized state runs the bounded-loss
        // verifier first; nothing is written when it fails.
        match verify_bounded_loss(
            market.initial_liquidity,
            market.current_liquidity,
            market.b_parameter,
        ) {
            Ok(()) => {},
            Err(e) => {
                return Err(e);
            },
        }
        market.dispute_agree = final_agrees;
        market.dispute_disagree = final_disagrees;
        market.dispute_total_votes = total_votes;
        let flipped = match market.proposed_outcome {
            Some(v) => Some(!v),
            None => None,
        };
        market.final_outcome = flipped;
        market.was_disputed = true;
        market.finalized_at = now;
        market.state = MarketState::Finalized;
        Ok(true)
    } else {
        market.dispute_agree = final_agrees;
        market.dispute_disagree = final_disagrees;
        market.dispute_total_votes = total_votes;
        market.was_disputed = true;
        Ok(false)
    }
}

} // verus!
