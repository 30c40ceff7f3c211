//! Reserve-floor arithmetic and the remaining failure paths.

use zmart_core::admin::initialize_global_config;
use zmart_core::errors::ErrorCode;
use zmart_core::fixed_point::PRECISION;
use zmart_core::global_config::GlobalConfig;
use zmart_core::lifecycle::{create_market, resolve_market};
use zmart_core::lmsr::fixed_ln;
use zmart_core::market::{MarketAccount, MarketState};
use zmart_core::position::UserPosition;
use zmart_core::rent::{check_transfer_keeps_reserve, is_rent_exempt, max_transferable_amount};
use zmart_core::trading::{buy_shares, sell_shares};
use zmart_core::vote_record::VoteLedger;
use zmart_core::voting::submit_proposal_vote;

const ADMIN: u64 = 1;
const BACKEND: u64 = 2;
const WALLET: u64 = 3;
const CREATOR: u64 = 4;
const USER: u64 = 5;
const MARKET_KEY: u64 = 66;

fn test_config() -> GlobalConfig {
    initialize_global_config(ADMIN, BACKEND, WALLET)
}

fn active_market() -> MarketAccount {
    let config = test_config();
    let mut market = create_market(
        &config,
        [2; 32],
        CREATOR,
        1000 * PRECISION,
        10 * PRECISION,
        [0; 46],
        100,
    )
    .unwrap();
    market.state = MarketState::Active;
    market.activated_at = 200;
    market
}

// ---- reserve floor ----

#[test]
fn test_is_rent_exempt_comparison() {
    assert!(is_rent_exempt(2_000_000, 2_000_000));
    assert!(is_rent_exempt(2_000_001, 2_000_000));
    assert!(!is_rent_exempt(1_999_999, 2_000_000));
}

#[test]
fn test_max_transferable_never_breaks_floor() {
    // Above the floor: the difference.
    assert_eq!(max_transferable_amount(10_000_000, 2_000_000), 8_000_000);
    // At the floor: zero, never negative.
    assert_eq!(max_transferable_amount(2_000_000, 2_000_000), 0);
    // Below the floor: still zero.
    assert_eq!(max_transferable_amount(1_000_000, 2_000_000), 0);
}

#[test]
fn test_transfer_reserve_guard() {
    // A transfer that leaves the floor intact passes and reports the new
    // balance.
    assert_eq!(check_transfer_keeps_reserve(10_000_000, 2_000_000, 8_000_000), Ok(2_000_000));
    // One unit more would break the reserve.
    assert_eq!(
        check_transfer_keeps_reserve(10_000_000, 2_000_000, 8_000_001),
        Err(ErrorCode::WouldBreakRentExemption)
    );
    // More than the whole balance is simply unfunded.
    assert_eq!(
        check_transfer_keeps_reserve(10_000_000, 2_000_000, 10_000_001),
        Err(ErrorCode::InsufficientFunds)
    );
}

// ---- remaining failure paths ----

#[test]
fn test_sell_slippage_guard() {
    let config = test_config();
    let mut market = active_market();
    let mut position = UserPosition::new(MARKET_KEY, USER);

    let buy = buy_shares(
        &mut market,
        &mut position,
        &config,
        MARKET_KEY,
        USER,
        true,
        PRECISION,
        300,
    )
    .unwrap();

    // Demanding more than the pool could ever return trips the slippage
    // guard, and nothing changes.
    let market_before_volume = market.total_volume;
    assert_eq!(
        sell_shares(
            &mut market,
            &mut position,
            &config,
            USER,
            true,
            buy.shares_bought,
            u64::MAX,
            400,
        )
        .unwrap_err(),
        ErrorCode::SlippageExceeded
    );
    assert_eq!(market.total_volume, market_before_volume);
    assert_eq!(position.shares_yes, buy.shares_bought);
}

#[test]
fn test_buy_rejects_foreign_position() {
    let config = test_config();
    let mut market = active_market();
    let mut position = UserPosition::new(MARKET_KEY, USER);
    position.trades_count = 1;

    // Someone else's position is refused.
    assert_eq!(
        buy_shares(&mut market, &mut position, &config, MARKET_KEY, 999, true, PRECISION, 300)
            .unwrap_err(),
        ErrorCode::Unauthorized
    );
    // The right user with the wrong market is refused too.
    assert_eq!(
        buy_shares(&mut market, &mut position, &config, 12345, USER, true, PRECISION, 300)
            .unwrap_err(),
        ErrorCode::InvalidMarketId
    );
}

#[test]
fn test_resolve_rejects_inconsistent_clock() {
    let mut market = active_market();
    market.created_at = 1_000;
    market.activated_at = 2_000;

    // Before creation.
    assert_eq!(
        resolve_market(&mut market, 55, true, [0; 46], 500).unwrap_err(),
        ErrorCode::InvalidTimestamp
    );
    // Not after activation.
    assert_eq!(
        resolve_market(&mut market, 55, true, [0; 46], 2_000).unwrap_err(),
        ErrorCode::InvalidTimestamp
    );
    // Ten years past creation.
    assert_eq!(
        resolve_market(&mut market, 55, true, [0; 46], 1_000 + 86400 * 365 * 10 + 1)
            .unwrap_err(),
        ErrorCode::InvalidTimestamp
    );
    assert_eq!(market.state, MarketState::Active);
}

#[test]
fn test_vote_rejected_in_wrong_state() {
    let mut ledger = VoteLedger::new();
    let mut market = active_market();
    market.state = MarketState::Finalized;
    assert_eq!(
        submit_proposal_vote(&mut ledger, &market, MARKET_KEY, USER, true, 100).unwrap_err(),
        ErrorCode::InvalidStateForVoting
    );
    assert_eq!(ledger.records.len(), 0);
}

#[test]
fn test_ln_underflows_below_one_half() {
    // ln of a quarter is negative, which the unsigned result cannot carry.
    assert_eq!(fixed_ln(PRECISION / 4), Err(ErrorCode::UnderflowError));
}

// ---- ballot submission scenarios ----

#[test]
fn test_submit_proposal_vote_like_success() {
    // A market awaiting approval and a user who has not voted yet: the
    // ballot in favour is recorded.
    let mut ledger = VoteLedger::new();
    let mut market = active_market();
    market.state = MarketState::Proposed;

    let record = submit_proposal_vote(&mut ledger, &market, MARKET_KEY, USER, true, 1_000)
        .unwrap();
    assert!(record.vote);
    assert_eq!(record.user, USER);
    assert_eq!(record.market, MARKET_KEY);
    assert_eq!(ledger.records.len(), 1);
}

#[test]
fn test_submit_proposal_vote_dislike_success() {
    // A ballot against is recorded just the same.
    let mut ledger = VoteLedger::new();
    let mut market = active_market();
    market.state = MarketState::Proposed;

    let record = submit_proposal_vote(&mut ledger, &market, MARKET_KEY, USER, false, 1_000)
        .unwrap();
    assert!(!record.vote);
    assert_eq!(ledger.records.len(), 1);
}

#[test]
fn test_submit_proposal_vote_duplicate_fails() {
    // The same user voting twice on the same market is rejected by the
    // existing record.
    let mut ledger = VoteLedger::new();
    let mut market = active_market();
    market.state = MarketState::Proposed;

    submit_proposal_vote(&mut ledger, &market, MARKET_KEY, USER, true, 1_000).unwrap();
    assert_eq!(
        submit_proposal_vote(&mut ledger, &market, MARKET_KEY, USER, false, 1_100).unwrap_err(),
        ErrorCode::AlreadyVoted
    );
    assert_eq!(ledger.records.len(), 1);
}

#[test]
fn test_submit_proposal_vote_wrong_state_fails() {
    // A market already trading takes no more proposal ballots.
    let mut ledger = VoteLedger::new();
    let market = active_market();

    assert_eq!(
        submit_proposal_vote(&mut ledger, &market, MARKET_KEY, USER, true, 1_000).unwrap_err(),
        ErrorCode::InvalidStateForVoting
    );
}

#[test]
fn test_submit_proposal_vote_different_users_same_market() {
    // Distinct users may each vote once on the same market.
    let mut ledger = VoteLedger::new();
    let mut market = active_market();
    market.state = MarketState::Proposed;

    submit_proposal_vote(&mut ledger, &market, MARKET_KEY, 201, true, 1_000).unwrap();
    submit_proposal_vote(&mut ledger, &market, MARKET_KEY, 202, false, 1_001).unwrap();
    submit_proposal_vote(&mut ledger, &market, MARKET_KEY, 203, true, 1_002).unwrap();
    assert_eq!(ledger.records.len(), 3);
}

#[test]
fn test_submit_proposal_vote_same_user_different_markets() {
    // One user may vote once per market.
    let mut ledger = VoteLedger::new();
    let mut market = active_market();
    market.state = MarketState::Proposed;

    submit_proposal_vote(&mut ledger, &market, 301, USER, true, 1_000).unwrap();
    submit_proposal_vote(&mut ledger, &market, 302, USER, true, 1_001).unwrap();
    assert_eq!(ledger.records.len(), 2);
    assert_eq!(
        submit_proposal_vote(&mut ledger, &market, 301, USER, true, 1_002).unwrap_err(),
        ErrorCode::AlreadyVoted
    );
}
