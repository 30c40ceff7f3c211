//! The market aggregate and its lifecycle machine.
//!
//! A market moves along a fixed seven-state graph:
//! `Proposed -> Approved -> Active -> Resolving -> {Disputed ->} Finalized`,
//! with `Cancelled` reachable only from the first two states.  The edge
//! list lives in one spec function and one checked transition method, so no
//! operation can step outside it.

use vstd::prelude::*;

use crate::errors::ErrorCode;

verus! {

/// An account identity: an opaque address, carried as a plain number.
pub type AccountId = u64;

/// The lifecycle states of a market.
#[derive(Clone, Copy, Debug, PartialEq, Eq, Structural)]
pub enum MarketState {
    /// Created, awaiting community approval votes.
    Proposed,
    /// Approved by the community, waiting for activation.
    Approved,
    /// Trading enabled.
    Active,
    /// A resolution is proposed; the dispute window is open.
    Resolving,
    /// The resolution is disputed; the community votes on the outcome.
    Disputed,
    /// The final outcome is set; claims are enabled.  Terminal.
    Finalized,
    /// Cancelled by the admin.  Terminal.
    Cancelled,
}

/// The edge list of the lifecycle machine.  Everything else is invalid; in
/// particular `Finalized` and `Cancelled` have no outgoing edges.
pub open spec fn spec_can_transition(from: MarketState, to: MarketState) -> bool {
    ||| (from == MarketState::Proposed && to == MarketState::Approved)
    ||| (from == MarketState::Approved && to == MarketState::Active)
    ||| (from == MarketState::Active && to == MarketState::Resolving)
    ||| (from == MarketState::Resolving && to == MarketState::Disputed)
    ||| (from == MarketState::Resolving && to == MarketState::Finalized)
    ||| (from == MarketState::Disputed && to == MarketState::Finalized)
}

/// The share of a tally that voted in favour, in basis points.
pub open spec fn spec_rate_bps(votes_for: int, total_votes: int) -> int {
    votes_for * 10000 / total_votes
}

/// One prediction market: LMSR parameters, outstanding shares, lifecycle
/// timestamps, resolution and dispute data, fee accumulators and tallies.
#[derive(Clone, Debug)]
pub struct MarketAccount {
    /// Opaque 32-byte market identifier.
    pub market_id: [u8; 32],
    /// The creator; receives the remaining pool after finalization.
    pub creator: AccountId,
    /// Current lifecycle state.
    pub state: MarketState,
    /// LMSR liquidity depth parameter, fixed-point.
    pub b_parameter: u64,
    /// Liquidity provided at creation, in value units.
    pub initial_liquidity: u64,
    /// Liquidity currently in the pool, in value units.
    pub current_liquidity: u64,
    /// Outstanding YES shares, fixed-point.
    pub shares_yes: u64,
    /// Outstanding NO shares, fixed-point.
    pub shares_no: u64,
    /// Cumulative traded value.
    pub total_volume: u64,
    /// When the market was created.
    pub created_at: i64,
    /// When the proposal was approved.
    pub approved_at: i64,
    /// When trading was enabled.
    pub activated_at: i64,
    /// When a resolution was proposed.
    pub resolution_proposed_at: i64,
    /// When the resolution was accepted.
    pub resolved_at: i64,
    /// When the final outcome was set.
    pub finalized_at: i64,
    /// Who proposed the resolution.
    pub resolver: AccountId,
    /// The proposed outcome: YES, NO, or invalid.
    pub proposed_outcome: Option<bool>,
    /// The outcome after the dispute window closed.
    pub final_outcome: Option<bool>,
    /// Reference to the resolution evidence.
    pub ipfs_evidence_hash: [u8; 46],
    /// When a dispute was opened.
    pub dispute_initiated_at: i64,
    /// Who opened the dispute.
    pub dispute_initiator: AccountId,
    /// Protocol fees accumulated in the pool.
    pub accumulated_protocol_fees: u64,
    /// Resolver reward accumulated in the pool.
    pub accumulated_resolver_fees: u64,
    /// Liquidity-provider fees accumulated in the pool.
    pub accumulated_lp_fees: u64,
    /// Proposal votes in favour.
    pub proposal_likes: u32,
    /// Proposal votes against.
    pub proposal_dislikes: u32,
    /// All proposal votes.
    pub proposal_total_votes: u32,
    /// Resolution votes agreeing.
    pub resolution_agree: u32,
    /// Resolution votes disagreeing.
    pub resolution_disagree: u32,
    /// All resolution votes.
    pub resolution_total_votes: u32,
    /// Dispute votes agreeing with the dispute.
    pub dispute_agree: u32,
    /// Dispute votes disagreeing.
    pub dispute_disagree: u32,
    /// All dispute votes.
    pub dispute_total_votes: u32,
    /// Whether the market went through a dispute.
    pub was_disputed: bool,
    /// Whether the market was cancelled.
    pub is_cancelled: bool,
    /// When the market was cancelled.
    pub cancelled_at: Option<i64>,
    /// The per-market exclusive lock, held across external value transfers
    /// to block reentrant operations.
    pub is_locked: bool,
}

impl MarketAccount {
    /// Whether stepping to `new_state` follows an edge of the lifecycle
    /// machine.
    pub fn can_transition_to(&self, new_state: MarketState) -> (r: bool)
        ensures
            r == spec_can_transition(self.state, new_state),
    {
        match (self.state, new_state) {
            (MarketState::Proposed, MarketState::Approved) => true,
            (MarketState::Approved, MarketState::Active) => true,
            (MarketState::Active, MarketState::Resolving) => true,
            (MarketState::Resolving, MarketState::Disputed) => true,
            (MarketState::Resolving, MarketState::Finalized) => true,
            (MarketState::Disputed, MarketState::Finalized) => true,
            _ => false,
        }
    }

    /// Steps to `new_state` when the edge exists, and rejects anything else
    /// with `InvalidStateTransition`, leaving the market untouched.
    pub fn transition_state(&mut self, new_state: MarketState) -> (r: Result<(), ErrorCode>)
        ensures
            spec_can_transition(old(self).state, new_state) ==> r == Ok::<(), ErrorCode>(())
                && *final(self) == (MarketAccount { state: new_state, ..*old(self) }),
            !spec_can_transition(old(self).state, new_state) ==> r == Err::<(), ErrorCode>(
                ErrorCode::InvalidStateTransition,
            ) && *final(self) == *old(self),
    {
        if self.can_transition_to(new_state) {
            self.state = new_state;
            Ok(())
        } else {
            Err(ErrorCode::InvalidStateTransition)
        }
    }

    /// Whether the proposal tally reaches the approval threshold: there is
    /// at least one vote and the in-favour share, in basis points, is at or
    /// above the threshold.
    pub fn proposal_approved(&self, threshold_bps: u16) -> (r: bool)
        ensures
            r <==> (self.proposal_total_votes > 0 && spec_rate_bps(
                self.proposal_likes as int,
                self.proposal_total_votes as int,
            ) >= threshold_bps),
    {
        if self.proposal_total_votes == 0 {
            return false;
        }
        let approval_rate: u128 = (self.proposal_likes as u128) * 10000 / (
        self.proposal_total_votes as u128);
        approval_rate >= threshold_bps as u128
    }

    /// Whether the dispute tally reaches the success threshold, with the
    /// same inclusive comparison.
    pub fn dispute_succeeded(&self, threshold_bps: u16) -> (r: bool)
        ensures
            r <==> (self.dispute_total_votes > 0 && spec_rate_bps(
                self.dispute_agree as int,
                self.dispute_total_votes as int,
            ) >= threshold_bps),
    {
        if self.dispute_total_votes == 0 {
            return false;
        }
        let agree_rate: u128 = (self.dispute_agree as u128) * 10000 / (
        self.dispute_total_votes as u128);
        agree_rate >= threshold_bps as u128
    }

    /// Whether shares can be traded right now: active and not cancelled.
    pub fn is_tradable(&self) -> (r: bool)
        ensures
            r <==> (self.state == MarketState::Active && !self.is_cancelled),
    {
        match self.state {
            MarketState::Active => !self.is_cancelled,
            _ => false,
        }
    }

    /// Whether the resolution can be finalized: a resolution is pending and
    /// the minimum delay since it was proposed has passed.
    pub fn can_finalize(&self, min_delay: i64, current_time: i64) -> (r: bool)
        ensures
            r <==> (self.state == MarketState::Resolving && self.resolution_proposed_at > 0
                && current_time as int >= self.resolution_proposed_at + min_delay),
    {
        match self.state {
            MarketState::Resolving => self.resolution_proposed_at > 0 && (current_time as i128)
                >= (self.resolution_proposed_at as i128) + (min_delay as i128),
            _ => false,
        }
    }

    /// Whether a dispute can still be opened: a resolution is pending and
    /// the dispute window has not yet closed.
    pub fn can_dispute(&self, dispute_period: i64, current_time: i64) -> (r: bool)
        ensures
            r <==> (self.state == MarketState::Resolving && self.resolution_proposed_at > 0
                && (current_time as int) < self.resolution_proposed_at + dispute_period),
    {
        match self.state {
            MarketState::Resolving => self.resolution_proposed_at > 0 && (current_time as i128)
                < (self.resolution_proposed_at as i128) + (dispute_period as i128),
            _ => false,
        }
    }

    /// The liquidity currently in the pool.
    pub fn get_liquidity(&self) -> (r: u64)
        ensures
            r == self.current_liquidity,
    {
        self.current_liquidity
    }

    /// The sum of the three fee accumulators, or `OverflowError` when it
    /// does not fit.
    pub fn total_fees_accumulated(&self) -> (r: Result<u64, ErrorCode>)
        ensures
            r is Ok <==> self.accumulated_protocol_fees + self.accumulated_resolver_fees
                + self.accumulated_lp_fees <= u64::MAX,
            r matches Ok(v) ==> v == self.accumulated_protocol_fees
                + self.accumulated_resolver_fees + self.accumulated_lp_fees,
            r matches Err(e) ==> e == ErrorCode::OverflowError,
    {
        if self.accumulated_protocol_fees > u64::MAX - self.accumulated_resolver_fees {
            return Err(ErrorCode::OverflowError);
        }
        let partial = self.accumulated_protocol_fees + self.accumulated_resolver_fees;
        if partial > u64::MAX - self.accumulated_lp_fees {
            return Err(ErrorCode::OverflowError);
        }
        Ok(partial + self.accumulated_lp_fees)
    }

    /// Takes the per-market exclusive lock before external transfers begin.
    /// A market that is already locked is mid-operation, and the reentrant
    /// call is rejected.
    pub fn lock(&mut self) -> (r: Result<(), ErrorCode>)
        ensures
            old(self).is_locked ==> r == Err::<(), ErrorCode>(ErrorCode::MarketLocked)
                && *final(self) == *old(self),
            !old(self).is_locked ==> r == Ok::<(), ErrorCode>(()) && *final(self)
                == (MarketAccount { is_locked: true, ..*old(self) }),
    {
        if self.is_locked {
            Err(ErrorCode::MarketLocked)
        } else {
            self.is_locked = true;
            Ok(())
        }
    }

    /// Releases the per-market lock once every transfer of the operation has
    /// completed.
    pub fn unlock(&mut self)
        ensures
            *final(self) == (MarketAccount { is_locked: false, ..*old(self) }),
    {
        self.is_locked = false;
    }
}

} // verus!
