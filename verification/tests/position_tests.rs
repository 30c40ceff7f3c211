//! The user position: balances, cost basis, one-shot claim accounting.

use zmart_core::position::UserPosition;

fn create_test_position(shares_yes: u64, shares_no: u64) -> UserPosition {
    UserPosition {
        market: 5,
        user: 6,
        shares_yes,
        shares_no,
        total_invested: 0,
        trades_count: 0,
        last_trade_at: 0,
        has_claimed: false,
        claimed_amount: 0,
    }
}

#[test]
fn test_calculate_winnings() {
    let position = create_test_position(1000, 500);

    // YES wins: the YES shares
    assert_eq!(position.calculate_winnings(true), 1000);

    // NO wins: the NO shares
    assert_eq!(position.calculate_winnings(false), 500);
}

#[test]
fn test_has_shares() {
    let mut position = create_test_position(0, 0);
    assert!(!position.has_shares());

    position.shares_yes = 100;
    assert!(position.has_shares());

    position.shares_yes = 0;
    position.shares_no = 200;
    assert!(position.has_shares());
}

#[test]
fn test_total_shares() {
    let position = create_test_position(1000, 500);
    assert_eq!(position.total_shares().unwrap(), 1500);

    let empty_position = create_test_position(0, 0);
    assert_eq!(empty_position.total_shares().unwrap(), 0);
}

#[test]
fn test_average_price() {
    let mut position = create_test_position(1000, 1000);

    // Invested 1 unit for 2000 shares
    position.total_invested = 1_000_000_000;

    // 1_000_000_000 / 2000 = 500_000 per share
    let avg = position.average_price().unwrap();
    assert_eq!(avg, 500_000);

    // An empty position gives 0
    let empty_position = create_test_position(0, 0);
    assert_eq!(empty_position.average_price().unwrap(), 0);
}

#[test]
fn test_already_claimed() {
    let mut position = create_test_position(1000, 500);
    assert!(!position.already_claimed());

    position.has_claimed = true;
    assert!(position.already_claimed());
}

#[test]
fn test_net_profit() {
    let mut position = create_test_position(1000, 500);
    position.total_invested = 1_000_000_000; // 1 unit

    // Not claimed yet
    assert!(position.net_profit().is_none());

    // Claimed with profit
    position.has_claimed = true;
    position.claimed_amount = 1_500_000_000; // 1.5 units
    assert_eq!(position.net_profit().unwrap(), 500_000_000); // +0.5

    // Claimed with loss
    position.claimed_amount = 800_000_000; // 0.8 units
    assert_eq!(position.net_profit().unwrap(), -200_000_000); // -0.2

    // Break even
    position.claimed_amount = 1_000_000_000;
    assert_eq!(position.net_profit().unwrap(), 0);
}
