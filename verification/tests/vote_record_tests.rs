//! Ballots and the duplicate-rejecting vote ledger.

use zmart_core::errors::ErrorCode;
use zmart_core::vote_record::{VoteLedger, VoteRecord, VoteType};

fn create_test_vote(vote_type: VoteType, vote: bool) -> VoteRecord {
    VoteRecord { market: 21, user: 22, vote_type, vote, voted_at: 1699564800 }
}

#[test]
fn test_vote_type_checks() {
    let mut vote = create_test_vote(VoteType::Proposal, true);

    assert!(vote.is_proposal_vote());
    assert!(!vote.is_dispute_vote());

    vote.vote_type = VoteType::Dispute;
    assert!(!vote.is_proposal_vote());
    assert!(vote.is_dispute_vote());
}

#[test]
fn test_as_approval() {
    let approve_vote = create_test_vote(VoteType::Proposal, true);
    assert_eq!(approve_vote.as_approval(), Some(true));

    let reject_vote = create_test_vote(VoteType::Proposal, false);
    assert_eq!(reject_vote.as_approval(), Some(false));

    let dispute_vote = create_test_vote(VoteType::Dispute, true);
    assert_eq!(dispute_vote.as_approval(), None);
}

#[test]
fn test_as_dispute_agreement() {
    let agree_vote = create_test_vote(VoteType::Dispute, true);
    assert_eq!(agree_vote.as_dispute_agreement(), Some(true));

    let disagree_vote = create_test_vote(VoteType::Dispute, false);
    assert_eq!(disagree_vote.as_dispute_agreement(), Some(false));

    let proposal_vote = create_test_vote(VoteType::Proposal, true);
    assert_eq!(proposal_vote.as_dispute_agreement(), None);
}

#[test]
fn test_vote_type_serialization() {
    // The kind tags, in declaration order.
    assert_eq!(VoteType::Proposal as u8, 0);
    assert_eq!(VoteType::Dispute as u8, 1);
}

#[test]
fn test_ledger_rejects_duplicate_votes() {
    let mut ledger = VoteLedger::new();
    let vote = VoteRecord { market: 1, user: 2, vote_type: VoteType::Proposal, vote: true, voted_at: 10 };

    assert!(ledger.record_vote(vote).is_ok());
    assert_eq!(ledger.records.len(), 1);

    // The same voter on the same market and kind is rejected, whatever the
    // ballot says.
    let changed_mind =
        VoteRecord { market: 1, user: 2, vote_type: VoteType::Proposal, vote: false, voted_at: 11 };
    assert_eq!(ledger.record_vote(changed_mind), Err(ErrorCode::AlreadyVoted));
    assert_eq!(ledger.records.len(), 1);
}

#[test]
fn test_ledger_allows_both_kinds_per_voter() {
    let mut ledger = VoteLedger::new();
    let proposal =
        VoteRecord { market: 1, user: 2, vote_type: VoteType::Proposal, vote: true, voted_at: 10 };
    let dispute =
        VoteRecord { market: 1, user: 2, vote_type: VoteType::Dispute, vote: false, voted_at: 20 };

    assert!(ledger.record_vote(proposal).is_ok());
    assert!(ledger.record_vote(dispute).is_ok());
    assert_eq!(ledger.records.len(), 2);

    assert!(ledger.contains_vote(1, 2, VoteType::Proposal));
    assert!(ledger.contains_vote(1, 2, VoteType::Dispute));
    assert!(!ledger.contains_vote(1, 3, VoteType::Proposal));
    assert!(!ledger.contains_vote(2, 2, VoteType::Proposal));
}
