//! The vote ledger: one immutable record per (market, voter, kind).
//!
//! The existence of a record is itself the duplicate-vote guard: recording
//! a second ballot for the same triple is rejected, never merged.

use vstd::prelude::*;

use crate::errors::ErrorCode;
use crate::market::AccountId;

verus! {

/// Which question a ballot answers.
#[derive(Clone, Copy, Debug, PartialEq, Eq, Structural)]
pub enum VoteType {
    /// A vote on a market proposal: like or dislike.
    Proposal,
    /// A vote on a dispute: agree or disagree with the dispute.
    Dispute,
}

/// A single immutable ballot.
#[derive(Clone, Copy, Debug, PartialEq, Eq, Structural)]
pub struct VoteRecord {
    /// The market voted on.
    pub market: AccountId,
    /// Who cast the ballot.
    pub user: AccountId,
    /// Which question it answers.
    pub vote_type: VoteType,
    /// The ballot itself.  For proposals, in favour; for disputes, agreeing
    /// with the dispute.
    pub vote: bool,
    /// When it was cast.
    pub voted_at: i64,
}

impl VoteRecord {
    /// Whether this ballot answers a proposal question.
    pub fn is_proposal_vote(&self) -> (r: bool)
        ensures
            r <==> self.vote_type == VoteType::Proposal,
    {
        match self.vote_type {
            VoteType::Proposal => true,
            VoteType::Dispute => false,
        }
    }

    /// Whether this ballot answers a dispute question.
    pub fn is_dispute_vote(&self) -> (r: bool)
        ensures
            r <==> self.vote_type == VoteType::Dispute,
    {
        match self.vote_type {
            VoteType::Proposal => false,
            VoteType::Dispute => true,
        }
    }

    /// The ballot read as a proposal approval, when it is one.
    pub fn as_approval(&self) -> (r: Option<bool>)
        ensures
            self.vote_type == VoteType::Proposal ==> r == Some(self.vote),
            self.vote_type != VoteType::Proposal ==> r is None,
    {
        if self.is_proposal_vote() {
            Some(self.vote)
        } else {
            None
        }
    }

    /// The ballot read as a dispute agreement, when it is one.
    pub fn as_dispute_agreement(&self) -> (r: Option<bool>)
        ensures
            self.vote_type == VoteType::Dispute ==> r == Some(self.vote),
            self.vote_type != VoteType::Dispute ==> r is None,
    {
        if self.is_dispute_vote() {
            Some(self.vote)
        } else {
            None
        }
    }
}

/// Whether the ledger already holds a ballot for this triple.
pub open spec fn spec_has_vote(
    records: Seq<VoteRecord>,
    market: AccountId,
    user: AccountId,
    vote_type: VoteType,
) -> bool {
    exists|i: int|
        0 <= i < records.len() && records[i].market == market && records[i].user == user
            && records[i].vote_type == vote_type
}

/// The ledger of ballots: append-only, one per (market, voter, kind).
#[derive(Clone, Debug)]
pub struct VoteLedger {
    /// Every ballot recorded so far, in arrival order.
    pub records: Vec<VoteRecord>,
}

impl VoteLedger {
    /// An empty ledger.
    pub fn new() -> (r: VoteLedger)
        ensures
            r.records@ =~= Seq::<VoteRecord>::empty(),
    {
        VoteLedger { records: Vec::new() }
    }

    /// Whether a ballot for this triple exists.
    pub fn contains_vote(
        &self,
        market: AccountId,
        user: AccountId,
        vote_type: VoteType,
    ) -> (r: bool)
        ensures
            r == spec_has_vote(self.records@, market, user, vote_type),
    {
        let mut i: usize = 0;
        while i < self.records.len()
            invariant
                0 <= i <= self.records.len(),
                forall|j: int|
                    0 <= j < i ==> !(self.records@[j].market == market && self.records@[j].user
                        == user && self.records@[j].vote_type == vote_type),
            decreases self.records.len() - i,
        {
            let rec = self.records[i];
            if rec.market == market && rec.user == user && rec.vote_type == vote_type {
                return true;
            }
            i = i + 1;
        }
        false
    }

    /// Appends a ballot, unless one for the same triple already exists; the
    /// prior record's existence, not any recount, is what rejects the
    /// duplicate.
    pub fn record_vote(&mut self, record: VoteRecord) -> (r: Result<(), ErrorCode>)
        ensures
            spec_has_vote(old(self).records@, record.market, record.user, record.vote_type)
                ==> r == Err::<(), ErrorCode>(ErrorCode::AlreadyVoted) && final(self).records@
                =~= old(self).records@,
            !spec_has_vote(old(self).records@, record.market, record.user, record.vote_type)
                ==> r == Ok::<(), ErrorCode>(()) && final(self).records@ =~= old(
                self,
            ).records@.push(record),
    {
        if self.contains_vote(record.market, record.user, record.vote_type) {
            return Err(ErrorCode::AlreadyVoted);
        }
        self.records.push(record);
        Ok(())
    }
}

} // verus!
