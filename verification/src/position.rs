//! One user's position in one market.
//!
//! Share balances, cost basis and the one-shot claim flag.  A position is
//! created on the first trade and mutated by every later trade and by the
//! claim; once claimed it never pays again.

use vstd::prelude::*;

use vstd::arithmetic::div_mod::{lemma_div_nonincreasing, lemma_div_pos_is_pos};

use crate::errors::ErrorCode;
use crate::market::AccountId;

verus! {

/// A user's holdings and claim status in a single market.
#[derive(Clone, Debug)]
pub struct UserPosition {
    /// The market this position belongs to.
    pub market: AccountId,
    /// The owning user.
    pub user: AccountId,
    /// YES shares held, fixed-point.
    pub shares_yes: u64,
    /// NO shares held, fixed-point.
    pub shares_no: u64,
    /// Total value paid in, the cost basis.
    pub total_invested: u64,
    /// How many trades this position has made.
    pub trades_count: u32,
    /// When the last trade happened.
    pub last_trade_at: i64,
    /// Whether winnings were already claimed; claims are one-shot.
    pub has_claimed: bool,
    /// The value paid out by the claim.
    pub claimed_amount: u64,
}

impl UserPosition {
    /// A fresh, empty position for a user in a market.
    pub fn new(market: AccountId, user: AccountId) -> (r: UserPosition)
        ensures
            r.market == market,
            r.user == user,
            r.shares_yes == 0,
            r.shares_no == 0,
            r.total_invested == 0,
            r.trades_count == 0,
            r.last_trade_at == 0,
            !r.has_claimed,
            r.claimed_amount == 0,
    {
        UserPosition {
            market,
            user,
            shares_yes: 0,
            shares_no: 0,
            total_invested: 0,
            trades_count: 0,
            last_trade_at: 0,
            has_claimed: false,
            claimed_amount: 0,
        }
    }

    /// The shares redeemed at one-to-one if the given outcome wins.
    pub fn calculate_winnings(&self, winning_outcome: bool) -> (r: u64)
        ensures
            winning_outcome ==> r == self.shares_yes,
            !winning_outcome ==> r == self.shares_no,
    {
        if winning_outcome {
            self.shares_yes
        } else {
            self.shares_no
        }
    }

    /// Whether the position holds any shares at all.
    pub fn has_shares(&self) -> (r: bool)
        ensures
            r <==> (self.shares_yes > 0 || self.shares_no > 0),
    {
        self.shares_yes > 0 || self.shares_no > 0
    }

    /// YES and NO shares together, or `OverflowError` when the sum does not
    /// fit.
    pub fn total_shares(&self) -> (r: Result<u64, ErrorCode>)
        ensures
            r is Ok <==> self.shares_yes + self.shares_no <= u64::MAX,
            r matches Ok(v) ==> v == self.shares_yes + self.shares_no,
            r matches Err(e) ==> e == ErrorCode::OverflowError,
    {
        if self.shares_yes > u64::MAX - self.shares_no {
            Err(ErrorCode::OverflowError)
        } else {
            Ok(self.shares_yes + self.shares_no)
        }
    }

    /// The average value paid per full share: the cost basis divided by the
    /// share total, and zero for an empty position.
    pub fn average_price(&self) -> (r: Result<u64, ErrorCode>)
        ensures
            self.shares_yes + self.shares_no > u64::MAX ==> r == Err::<u64, ErrorCode>(
                ErrorCode::OverflowError,
            ),
            self.shares_yes + self.shares_no == 0 ==> r == Ok::<u64, ErrorCode>(0),
            0 < self.shares_yes + self.shares_no <= u64::MAX ==> (r matches Ok(v) && v
                == self.total_invested as int / (self.shares_yes + self.shares_no)),
    {
        let total = match self.total_shares() {
            Ok(v) => v,
            Err(e) => {
                return Err(e);
            },
        };
        if total == 0 {
            return Ok(0);
        }
        proof {
            lemma_div_pos_is_pos(self.total_invested as int, total as int);
            lemma_div_nonincreasing(self.total_invested as int, total as int);
        }
        Ok(self.total_invested / total)
    }

    /// Whether winnings were already claimed.
    pub fn already_claimed(&self) -> (r: bool)
        ensures
            r == self.has_claimed,
    {
        self.has_claimed
    }

    /// Net result after claiming: the claimed value minus the cost basis,
    /// and nothing before the claim.
    pub fn net_profit(&self) -> (r: Option<i128>)
        ensures
            !self.has_claimed ==> r is None,
            self.has_claimed ==> (r matches Some(v) && v == self.claimed_amount
                - self.total_invested),
    {
        if !self.has_claimed {
            return None;
        }
        Some((self.claimed_amount as i128) - (self.total_invested as i128))
    }
}

} // verus!
