//! Trading and payout operations: buying and selling shares, claiming
//! winnings, and withdrawing the remaining pool.
//!
//! Every operation computes all of its new values first and writes only
//! when every check has passed, so a failure leaves the market and the
//! position exactly as they were.  Operations that hand value out of the
//! pool take the per-market lock; the embedding program performs the
//! transfers this module quotes and releases the lock afterwards.

use vstd::prelude::*;

use vstd::arithmetic::div_mod::{lemma_div_by_multiple, lemma_div_is_ordered,
    lemma_div_pos_is_pos};

use crate::errors::ErrorCode;
use crate::fees::{calculate_fees_accurate, spec_fee_share, spec_total_fee_bps, spec_total_fees,
    FeeBreakdown};
use crate::global_config::GlobalConfig;
use crate::lmsr::{calculate_buy_cost, calculate_sell_proceeds, cost_args_ok, shares_after_buy,
    spec_cost, spec_probe_cost, spec_probe_ok, spec_solver_bracket, spec_solver_probes_ok};
use crate::market::{AccountId, MarketAccount, MarketState};
use crate::position::UserPosition;

verus! {

/// The smallest value a trade may move: rejects micro-trades designed to
/// dodge fee rounding.
pub const MIN_TRADE_AMOUNT: u64 = 10_000;

/// What a buy did: the shares minted, the cost split, and the two transfers
/// the embedding program must now perform from the buyer.
#[derive(Clone, Copy, Debug)]
pub struct BuyOutcome {
    /// Shares minted on the chosen side.
    pub shares_bought: u64,
    /// The cost-curve difference paid, before fees.
    pub base_cost: u64,
    /// How the fee on top splits.
    pub fees: FeeBreakdown,
    /// Base cost plus all fees: what the buyer pays in total.
    pub total_cost: u64,
    /// What the buyer sends to the market pool.
    pub market_transfer: u64,
    /// What the buyer sends to the protocol fee wallet.
    pub protocol_transfer: u64,
}

/// Inputs on which a buy is owed: the entry guards pass, the position
/// belongs to the buyer, every solver probe is defined with a cost inside
/// the target, the fee rates are a valid nonzero split, and every running
/// total has room for the trade.
pub open spec fn spec_buy_succeeds(
    market: MarketAccount,
    position: UserPosition,
    config: GlobalConfig,
    market_key: AccountId,
    user: AccountId,
    outcome: bool,
    target_cost: u64,
) -> bool {
    let qy = market.shares_yes as int;
    let qn = market.shares_no as int;
    let b = market.b_parameter as int;
    let tbps = spec_total_fee_bps(
        config.protocol_fee_bps as int,
        config.resolver_reward_bps as int,
        config.liquidity_provider_fee_bps as int,
    );
    &&& market.state == MarketState::Active
    &&& !config.is_paused
    &&& target_cost >= MIN_TRADE_AMOUNT
    &&& (position.trades_count > 0 ==> position.user == user && position.market == market_key)
    &&& spec_solver_probes_ok(qy, qn, b, outcome)
    &&& (forall|s: int|
        0 <= s <= 20 * b ==> #[trigger] spec_probe_cost(qy, qn, b, outcome, s) <= target_cost)
    &&& 0 < tbps <= 10000
    &&& target_cost * tbps <= u64::MAX
    &&& market.total_volume + 2 * target_cost <= u64::MAX
    &&& market.current_liquidity + 2 * target_cost <= u64::MAX
    &&& market.accumulated_resolver_fees + 2 * target_cost <= u64::MAX
    &&& market.accumulated_lp_fees + 2 * target_cost <= u64::MAX
    &&& position.total_invested + 2 * target_cost <= u64::MAX
    &&& position.shares_yes + 20 * b <= u64::MAX
    &&& position.shares_no + 20 * b <= u64::MAX
    &&& position.trades_count < u32::MAX
}

/// Buys shares on one side for a target spend.  The share quantity comes
/// from the binary-search solver; the pre-fee cost must stay within the
/// target or the trade is rejected as slippage, and fees are then charged
/// on top of that cost.
pub fn buy_shares(
    market: &mut MarketAccount,
    position: &mut UserPosition,
    config: &GlobalConfig,
    market_key: AccountId,
    user: AccountId,
    outcome: bool,
    target_cost: u64,
    now: i64,
) -> (r: Result<BuyOutcome, ErrorCode>)
    ensures
        old(market).state != MarketState::Active ==> r == Err::<BuyOutcome, ErrorCode>(
            ErrorCode::InvalidMarketState,
        ),
        old(market).state == MarketState::Active && config.is_paused ==> r == Err::<
            BuyOutcome,
            ErrorCode,
        >(ErrorCode::ProtocolPaused),
        old(market).state == MarketState::Active && !config.is_paused && target_cost
            < MIN_TRADE_AMOUNT ==> r == Err::<BuyOutcome, ErrorCode>(ErrorCode::TradeTooSmall),
        old(market).state == MarketState::Active && !config.is_paused && target_cost
            >= MIN_TRADE_AMOUNT && old(position).trades_count > 0 && old(position).user != user
            ==> r == Err::<BuyOutcome, ErrorCode>(ErrorCode::Unauthorized),
        old(market).state == MarketState::Active && !config.is_paused && target_cost
            >= MIN_TRADE_AMOUNT && old(position).trades_count > 0 && old(position).user == user
            && old(position).market != market_key ==> r == Err::<BuyOutcome, ErrorCode>(
            ErrorCode::InvalidMarketId,
        ),
        r is Err ==> *final(market) == *old(market) && *final(position) == *old(position),
        r matches Err(e) ==> (e == ErrorCode::InvalidMarketState || e == ErrorCode::ProtocolPaused
            || e == ErrorCode::TradeTooSmall || e == ErrorCode::Unauthorized
            || e == ErrorCode::InvalidMarketId || e == ErrorCode::InvalidBParameter
            || e == ErrorCode::OverflowError || e == ErrorCode::ExponentTooLarge
            || e == ErrorCode::UnderflowError || e == ErrorCode::DivisionByZero
            || e == ErrorCode::SlippageExceeded),
        spec_buy_succeeds(
            *old(market),
            *old(position),
            *config,
            market_key,
            user,
            outcome,
            target_cost,
        ) ==> r is Ok,
        r matches Ok(out) ==> ({
            let qy = old(market).shares_yes as int;
            let qn = old(market).shares_no as int;
            let b = old(market).b_parameter as int;
            let (qy2, qn2) = shares_after_buy(qy, qn, outcome, out.shares_bought as int);
            let tbps = spec_total_fee_bps(
                config.protocol_fee_bps as int,
                config.resolver_reward_bps as int,
                config.liquidity_provider_fee_bps as int,
            );
            &&& old(market).state == MarketState::Active
            &&& !config.is_paused
            &&& target_cost >= MIN_TRADE_AMOUNT
            &&& out.shares_bought as int <= 20 * b
            &&& cost_args_ok(qy, qn, b)
            &&& cost_args_ok(qy2, qn2, b)
            &&& spec_solver_bracket(qy, qn, b, outcome, target_cost as int, out.shares_bought
                as int)
            &&& out.base_cost == spec_cost(qy2, qn2, b) - spec_cost(qy, qn, b)
            &&& out.fees.total_fees == spec_total_fees(out.base_cost as int, tbps)
            &&& out.fees.protocol_fee == spec_fee_share(
                out.fees.total_fees as int,
                config.protocol_fee_bps as int,
                tbps,
            )
            &&& out.fees.resolver_fee == spec_fee_share(
                out.fees.total_fees as int,
                config.resolver_reward_bps as int,
                tbps,
            )
            &&& out.fees.protocol_fee + out.fees.resolver_fee + out.fees.lp_fee
                == out.fees.total_fees
            &&& out.total_cost == out.base_cost + out.fees.total_fees
            &&& out.base_cost <= target_cost
            &&& out.market_transfer == out.total_cost - out.fees.protocol_fee
            &&& out.protocol_transfer == out.fees.protocol_fee
            &&& *final(market) == (MarketAccount {
                shares_yes: qy2 as u64,
                shares_no: qn2 as u64,
                total_volume: (old(market).total_volume + out.total_cost) as u64,
                current_liquidity: (old(market).current_liquidity + out.fees.resolver_fee
                    + out.fees.lp_fee) as u64,
                accumulated_resolver_fees: (old(market).accumulated_resolver_fees
                    + out.fees.resolver_fee) as u64,
                accumulated_lp_fees: (old(market).accumulated_lp_fees + out.fees.lp_fee) as u64,
                ..*old(market)
            })
            &&& (old(position).trades_count == 0 ==> *final(position) == (UserPosition {
                market: market_key,
                user,
                shares_yes: if outcome {
                    out.shares_bought
                } else {
                    0u64
                },
                shares_no: if outcome {
                    0u64
                } else {
                    out.shares_bought
                },
                total_invested: out.total_cost,
                trades_count: 1,
                last_trade_at: now,
                has_claimed: false,
                claimed_amount: 0,
            }))
            &&& (old(position).trades_count > 0 ==> old(position).user == user && old(
                position,
            ).market == market_key && *final(position) == (UserPosition {
                shares_yes: if outcome {
                    (old(position).shares_yes + out.shares_bought) as u64
                } else {
                    old(position).shares_yes
                },
                shares_no: if outcome {
                    old(position).shares_no
                } else {
                    (old(position).shares_no + out.shares_bought) as u64
                },
                total_invested: (old(position).total_invested + out.total_cost) as u64,
                trades_count: (old(position).trades_count + 1) as u32,
                last_trade_at: now,
                ..*old(position)
            }))
        }),
{
    if !matches!(market.state, MarketState::Active) {
        return Err(ErrorCode::InvalidMarketState);
    }
    if config.is_paused {
        return Err(ErrorCode::ProtocolPaused);
    }
    if target_cost < MIN_TRADE_AMOUNT {
        return Err(ErrorCode::TradeTooSmall);
    }
    let is_first_purchase = position.trades_count == 0;
    if !is_first_purchase {
        if position.user != user {
            return Err(ErrorCode::Unauthorized);
        }
        if position.market != market_key {
            return Err(ErrorCode::InvalidMarketId);
        }
    }

    let ghost qy = market.shares_yes as int;
    let ghost qn = market.shares_no as int;
    let ghost bi = market.b_parameter as int;
    let ghost owed = spec_buy_succeeds(
        *market,
        *position,
        *config,
        market_key,
        user,
        outcome,
        target_cost,
    );

    let (cost_before_fees, shares_bought) = match calculate_buy_cost(
        market.shares_yes,
        market.shares_no,
        market.b_parameter,
        outcome,
        target_cost,
    ) {
        Ok(pair) => pair,
        Err(e) => {
            return Err(e);
        },
    };

    proof {
        // When the buy is owed, the solver's cost is inside the target and
        // the fee pipeline stays inside the native width.
        if owed {
            let tbps = spec_total_fee_bps(
                config.protocol_fee_bps as int,
                config.resolver_reward_bps as int,
                config.liquidity_provider_fee_bps as int,
            );
            assert(spec_probe_cost(qy, qn, bi, outcome, shares_bought as int) <= target_cost);
            assert(cost_before_fees <= target_cost);
            let base = cost_before_fees as int;
            let t = spec_total_fees(base, tbps);
            assert(base * tbps <= target_cost * tbps) by (nonlinear_arith)
                requires
                    0 <= base <= target_cost,
                    tbps >= 0,
            ;
            assert(base * tbps <= base * 10000) by (nonlinear_arith)
                requires
                    base >= 0,
                    tbps <= 10000,
            ;
            lemma_div_is_ordered(base * tbps, base * 10000, 10000);
            lemma_div_by_multiple(base, 10000);
            assert(t <= base);
            lemma_div_pos_is_pos(base * tbps, 10000);
            assert(t * config.protocol_fee_bps <= target_cost * tbps) by (nonlinear_arith)
                requires
                    0 <= t <= target_cost,
                    0 <= config.protocol_fee_bps as int <= tbps,
            ;
            assert(t * config.resolver_reward_bps <= target_cost * tbps) by (nonlinear_arith)
                requires
                    0 <= t <= target_cost,
                    0 <= config.resolver_reward_bps as int <= tbps,
            ;
        }
    }

    let fees = match calculate_fees_accurate(
        cost_before_fees,
        config.protocol_fee_bps,
        config.resolver_reward_bps,
        config.liquidity_provider_fee_bps,
    ) {
        Ok(f) => f,
        Err(e) => {
            return Err(e);
        },
    };

    if cost_before_fees > u64::MAX - fees.total_fees {
        return Err(ErrorCode::OverflowError);
    }
    let total_cost: u64 = cost_before_fees + fees.total_fees;
    if cost_before_fees > target_cost {
        return Err(ErrorCode::SlippageExceeded);
    }
    let market_transfer: u64 = total_cost - fees.protocol_fee;

    // New market values, checked before anything is written.
    let new_shares_yes: u64;
    let new_shares_no: u64;
    if outcome {
        if market.shares_yes > u64::MAX - shares_bought {
            return Err(ErrorCode::OverflowError);
        }
        new_shares_yes = market.shares_yes + shares_bought;
        new_shares_no = market.shares_no;
    } else {
        if market.shares_no > u64::MAX - shares_bought {
            return Err(ErrorCode::OverflowError);
        }
        new_shares_yes = market.shares_yes;
        new_shares_no = market.shares_no + shares_bought;
    }
    if market.total_volume > u64::MAX - total_cost {
        return Err(ErrorCode::OverflowError);
    }
    let new_volume: u64 = market.total_volume + total_cost;
    if market.current_liquidity > u64::MAX - fees.resolver_fee {
        return Err(ErrorCode::OverflowError);
    }
    let liquidity_with_resolver: u64 = market.current_liquidity + fees.resolver_fee;
    if liquidity_with_resolver > u64::MAX - fees.lp_fee {
        return Err(ErrorCode::OverflowError);
    }
    let new_liquidity: u64 = liquidity_with_resolver + fees.lp_fee;
    if market.accumulated_resolver_fees > u64::MAX - fees.resolver_fee {
        return Err(ErrorCode::OverflowError);
    }
    let new_resolver_fees: u64 = market.accumulated_resolver_fees + fees.resolver_fee;
    if market.accumulated_lp_fees > u64::MAX - fees.lp_fee {
        return Err(ErrorCode::OverflowError);
    }
    let new_lp_fees: u64 = market.accumulated_lp_fees + fees.lp_fee;

    // New position values.
    let base_shares_yes: u64 = if is_first_purchase {
        0
    } else {
        position.shares_yes
    };
    let base_shares_no: u64 = if is_first_purchase {
        0
    } else {
        position.shares_no
    };
    let base_invested: u64 = if is_first_purchase {
        0
    } else {
        position.total_invested
    };
    let base_trades: u32 = if is_first_purchase {
        0
    } else {
        position.trades_count
    };
    let new_pos_yes: u64;
    let new_pos_no: u64;
    if outcome {
        if base_shares_yes > u64::MAX - shares_bought {
            return Err(ErrorCode::OverflowError);
        }
        new_pos_yes = base_shares_yes + shares_bought;
        new_pos_no = base_shares_no;
    } else {
        if base_shares_no > u64::MAX - shares_bought {
            return Err(ErrorCode::OverflowError);
        }
        new_pos_yes = base_shares_yes;
        new_pos_no = base_shares_no + shares_bought;
    }
    if base_invested > u64::MAX - total_cost {
        return Err(ErrorCode::OverflowError);
    }
    let new_invested: u64 = base_invested + total_cost;
    if base_trades == u32::MAX {
        return Err(ErrorCode::OverflowError);
    }
    let new_trades: u32 = base_trades + 1;

    // Commit.
    market.shares_yes = new_shares_yes;
    market.shares_no = new_shares_no;
    market.total_volume = new_volume;
    market.current_liquidity = new_liquidity;
    market.accumulated_resolver_fees = new_resolver_fees;
    market.accumulated_lp_fees = new_lp_fees;

    if is_first_purchase {
        position.market = market_key;
        position.user = user;
        position.has_claimed = false;
        position.claimed_amount = 0;
    }
    position.shares_yes = new_pos_yes;
    position.shares_no = new_pos_no;
    position.total_invested = new_invested;
    position.trades_count = new_trades;
    position.last_trade_at = now;

    Ok(
        BuyOutcome {
            shares_bought,
            base_cost: cost_before_fees,
            fees,
            total_cost,
            market_transfer,
            protocol_transfer: fees.protocol_fee,
        },
    )
}

/// What a sell did: the gross proceeds, the fee split, and the two
/// transfers the embedding program must now perform out of the pool.
#[derive(Clone, Copy, Debug)]
pub struct SellOutcome {
    /// The cost-curve difference released, before fees.
    pub proceeds_before_fees: u64,
    /// How the fee taken out of the proceeds splits.
    pub fees: FeeBreakdown,
    /// What the seller receives after fees.
    pub net_proceeds: u64,
    /// What the pool sends to the protocol fee wallet.
    pub protocol_transfer: u64,
    /// Everything that leaves the pool: seller payout plus protocol fee.
    pub total_payout: u64,
}

/// Sells shares back to the pool.  The proceeds are the closed-form cost
/// difference; fees come out of them, and the net must reach the seller's
/// floor or the trade is rejected as slippage.  The market leaves this call
/// locked: the embedding program performs the two quoted transfers and then
/// releases the lock.
pub fn sell_shares(
    market: &mut MarketAccount,
    position: &mut UserPosition,
    config: &GlobalConfig,
    user: AccountId,
    outcome: bool,
    shares_to_sell: u64,
    min_proceeds: u64,
    now: i64,
) -> (r: Result<SellOutcome, ErrorCode>)
    ensures
        old(market).state != MarketState::Active ==> r == Err::<SellOutcome, ErrorCode>(
            ErrorCode::InvalidMarketState,
        ),
        old(market).state == MarketState::Active && config.is_paused ==> r == Err::<
            SellOutcome,
            ErrorCode,
        >(ErrorCode::ProtocolPaused),
        old(market).state == MarketState::Active && !config.is_paused && old(position).user
            != user ==> r == Err::<SellOutcome, ErrorCode>(ErrorCode::Unauthorized),
        old(market).state == MarketState::Active && !config.is_paused && old(position).user
            == user && old(market).is_locked ==> r == Err::<SellOutcome, ErrorCode>(
            ErrorCode::MarketLocked,
        ),
        old(market).state == MarketState::Active && !config.is_paused && old(position).user
            == user && !old(market).is_locked && (if outcome {
            old(position).shares_yes
        } else {
            old(position).shares_no
        }) < shares_to_sell ==> r == Err::<SellOutcome, ErrorCode>(
            ErrorCode::InsufficientShares,
        ),
        r is Err ==> *final(market) == *old(market) && *final(position) == *old(position),
        // Once the entry guards pass, the whole pipeline is decided by the
        // spec values: which error comes on which input, and when the sale
        // is owed.
        old(market).state == MarketState::Active && !config.is_paused && old(position).user
            == user && !old(market).is_locked && shares_to_sell <= (if outcome {
            old(position).shares_yes
        } else {
            old(position).shares_no
        }) ==> ({
            let qy = old(market).shares_yes as int;
            let qn = old(market).shares_no as int;
            let b = old(market).b_parameter as int;
            let (qy2, qn2) = shares_after_buy(qy, qn, outcome, -(shares_to_sell as int));
            let tbps = spec_total_fee_bps(
                config.protocol_fee_bps as int,
                config.resolver_reward_bps as int,
                config.liquidity_provider_fee_bps as int,
            );
            let side_ok = if outcome {
                shares_to_sell <= old(market).shares_yes
            } else {
                shares_to_sell <= old(market).shares_no
            };
            let curve_ok = cost_args_ok(qy, qn, b) && cost_args_ok(qy2, qn2, b) && spec_cost(
                qy2,
                qn2,
                b,
            ) <= spec_cost(qy, qn, b);
            let p = spec_cost(qy, qn, b) - spec_cost(qy2, qn2, b);
            let t = spec_total_fees(p, tbps);
            let proto = spec_fee_share(t, config.protocol_fee_bps as int, tbps);
            let resolver = spec_fee_share(t, config.resolver_reward_bps as int, tbps);
            let lp = t - proto - resolver;
            let fees_ok = tbps > 0 && p * tbps <= u64::MAX && t * config.protocol_fee_bps
                <= u64::MAX && t * config.resolver_reward_bps <= u64::MAX;
            let net = p - t;
            let payout = net + proto;
            &&& (!side_ok ==> r == Err::<SellOutcome, ErrorCode>(ErrorCode::InsufficientShares))
            &&& (side_ok && !curve_ok ==> r is Err)
            &&& (side_ok && curve_ok && p < MIN_TRADE_AMOUNT ==> r == Err::<
                SellOutcome,
                ErrorCode,
            >(ErrorCode::TradeTooSmall))
            &&& (side_ok && curve_ok && p >= MIN_TRADE_AMOUNT && tbps == 0 ==> r == Err::<
                SellOutcome,
                ErrorCode,
            >(ErrorCode::DivisionByZero))
            &&& (side_ok && curve_ok && p >= MIN_TRADE_AMOUNT && tbps > 0 && !fees_ok ==> r
                == Err::<SellOutcome, ErrorCode>(ErrorCode::OverflowError))
            &&& (side_ok && curve_ok && p >= MIN_TRADE_AMOUNT && fees_ok && t > p ==> r
                == Err::<SellOutcome, ErrorCode>(ErrorCode::UnderflowError))
            &&& (side_ok && curve_ok && p >= MIN_TRADE_AMOUNT && fees_ok && t <= p && net
                < min_proceeds ==> r == Err::<SellOutcome, ErrorCode>(
                ErrorCode::SlippageExceeded,
            ))
            &&& (side_ok && curve_ok && p >= MIN_TRADE_AMOUNT && fees_ok && t <= p && net
                >= min_proceeds && payout > old(market).current_liquidity ==> r == Err::<
                SellOutcome,
                ErrorCode,
            >(ErrorCode::InsufficientLiquidity))
            &&& (side_ok && curve_ok && p >= MIN_TRADE_AMOUNT && fees_ok && t <= p && net
                >= min_proceeds && payout <= old(market).current_liquidity && (old(
                market,
            ).total_volume + p > u64::MAX || old(market).accumulated_resolver_fees + resolver
                > u64::MAX || old(market).accumulated_lp_fees + lp > u64::MAX || old(
                position,
            ).trades_count == u32::MAX) ==> r == Err::<SellOutcome, ErrorCode>(
                ErrorCode::OverflowError,
            ))
            &&& (side_ok && curve_ok && p >= MIN_TRADE_AMOUNT && fees_ok && t <= p && net
                >= min_proceeds && payout <= old(market).current_liquidity && old(
                market,
            ).total_volume + p <= u64::MAX && old(market).accumulated_resolver_fees + resolver
                <= u64::MAX && old(market).accumulated_lp_fees + lp <= u64::MAX && old(
                position,
            ).trades_count < u32::MAX ==> r is Ok)
        }),
        r matches Ok(out) ==> ({
            let qy = old(market).shares_yes as int;
            let qn = old(market).shares_no as int;
            let b = old(market).b_parameter as int;
            let (qy2, qn2) = shares_after_buy(qy, qn, outcome, -(shares_to_sell as int));
            let tbps = spec_total_fee_bps(
                config.protocol_fee_bps as int,
                config.resolver_reward_bps as int,
                config.liquidity_provider_fee_bps as int,
            );
            &&& old(market).state == MarketState::Active
            &&& !config.is_paused
            &&& !old(market).is_locked
            &&& old(position).user == user
            &&& shares_to_sell <= (if outcome {
                old(position).shares_yes
            } else {
                old(position).shares_no
            })
            &&& cost_args_ok(qy, qn, b)
            &&& cost_args_ok(qy2, qn2, b)
            &&& out.proceeds_before_fees == spec_cost(qy, qn, b) - spec_cost(qy2, qn2, b)
            &&& out.proceeds_before_fees >= MIN_TRADE_AMOUNT
            &&& out.fees.total_fees == spec_total_fees(out.proceeds_before_fees as int, tbps)
            &&& out.fees.protocol_fee + out.fees.resolver_fee + out.fees.lp_fee
                == out.fees.total_fees
            &&& out.net_proceeds == out.proceeds_before_fees - out.fees.total_fees
            &&& out.net_proceeds >= min_proceeds
            &&& out.protocol_transfer == out.fees.protocol_fee
            &&& out.total_payout == out.net_proceeds + out.fees.protocol_fee
            &&& out.total_payout <= old(market).current_liquidity
            &&& *final(market) == (MarketAccount {
                shares_yes: qy2 as u64,
                shares_no: qn2 as u64,
                total_volume: (old(market).total_volume + out.proceeds_before_fees) as u64,
                current_liquidity: (old(market).current_liquidity - out.total_payout) as u64,
                accumulated_resolver_fees: (old(market).accumulated_resolver_fees
                    + out.fees.resolver_fee) as u64,
                accumulated_lp_fees: (old(market).accumulated_lp_fees + out.fees.lp_fee) as u64,
                is_locked: true,
                ..*old(market)
            })
            &&& *final(position) == (UserPosition {
                shares_yes: if outcome {
                    (old(position).shares_yes - shares_to_sell) as u64
                } else {
                    old(position).shares_yes
                },
                shares_no: if outcome {
                    old(position).shares_no
                } else {
                    (old(position).shares_no - shares_to_sell) as u64
                },
                trades_count: (old(position).trades_count + 1) as u32,
                last_trade_at: now,
                ..*old(position)
            })
        }),
{
    if !matches!(market.state, MarketState::Active) {
        return Err(ErrorCode::InvalidMarketState);
    }
    if config.is_paused {
        return Err(ErrorCode::ProtocolPaused);
    }
    if position.user != user {
        return Err(ErrorCode::Unauthorized);
    }
    if market.is_locked {
        return Err(ErrorCode::MarketLocked);
    }
    let user_shares = if outcome {
        position.shares_yes
    } else {
        position.shares_no
    };
    if user_shares < shares_to_sell {
        return Err(ErrorCode::InsufficientShares);
    }

    let proceeds_before_fees = match calculate_sell_proceeds(
        market.shares_yes,
        market.shares_no,
        market.b_parameter,
        outcome,
        shares_to_sell,
    ) {
        Ok(v) => v,
        Err(e) => {
            return Err(e);
        },
    };
    if proceeds_before_fees < MIN_TRADE_AMOUNT {
        return Err(ErrorCode::TradeTooSmall);
    }

    let fees = match calculate_fees_accurate(
        proceeds_before_fees,
        config.protocol_fee_bps,
        config.resolver_reward_bps,
        config.liquidity_provider_fee_bps,
    ) {
        Ok(f) => f,
        Err(e) => {
            return Err(e);
        },
    };

    if fees.total_fees > proceeds_before_fees {
        return Err(ErrorCode::UnderflowError);
    }
    let net_proceeds: u64 = proceeds_before_fees - fees.total_fees;
    if net_proceeds < min_proceeds {
        return Err(ErrorCode::SlippageExceeded);
    }
    let total_payout: u64 = net_proceeds + fees.protocol_fee;
    if market.current_liquidity < total_payout {
        return Err(ErrorCode::InsufficientLiquidity);
    }

    // New market values.
    let new_shares_yes: u64;
    let new_shares_no: u64;
    if outcome {
        new_shares_yes = market.shares_yes - shares_to_sell;
        new_shares_no = market.shares_no;
    } else {
        new_shares_yes = market.shares_yes;
        new_shares_no = market.shares_no - shares_to_sell;
    }
    if market.total_volume > u64::MAX - proceeds_before_fees {
        return Err(ErrorCode::OverflowError);
    }
    let new_volume: u64 = market.total_volume + proceeds_before_fees;
    let new_liquidity: u64 = market.current_liquidity - total_payout;
    if market.accumulated_resolver_fees > u64::MAX - fees.resolver_fee {
        return Err(ErrorCode::OverflowError);
    }
    let new_resolver_fees: u64 = market.accumulated_resolver_fees + fees.resolver_fee;
    if market.accumulated_lp_fees > u64::MAX - fees.lp_fee {
        return Err(ErrorCode::OverflowError);
    }
    let new_lp_fees: u64 = market.accumulated_lp_fees + fees.lp_fee;

    if position.trades_count == u32::MAX {
        return Err(ErrorCode::OverflowError);
    }

    // Commit, and hold the lock across the payout transfers.
    market.shares_yes = new_shares_yes;
    market.shares_no = new_shares_no;
    market.total_volume = new_volume;
    market.current_liquidity = new_liquidity;
    market.accumulated_resolver_fees = new_resolver_fees;
    market.accumulated_lp_fees = new_lp_fees;
    market.is_locked = true;

    if outcome {
        position.shares_yes = position.shares_yes - shares_to_sell;
    } else {
        position.shares_no = position.shares_no - shares_to_sell;
    }
    position.trades_count = position.trades_count + 1;
    position.last_trade_at = now;

    Ok(
        SellOutcome {
            proceeds_before_fees,
            fees,
            net_proceeds,
            protocol_transfer: fees.protocol_fee,
            total_payout,
        },
    )
}

/// What a claim pays: the winner's pro-rata payout and, on the first claim
/// of a decided market, the resolver's accumulated reward.
#[derive(Clone, Copy, Debug)]
pub struct ClaimOutcome {
    /// What the pool sends to the claiming user.
    pub user_payout: u64,
    /// What the pool sends to the resolver.
    pub resolver_payout: u64,
}

/// Claims winnings from a finalized market, exactly once per position.  A
/// decided outcome pays winning shares pro rata out of the pool —
/// `user_shares * current_liquidity / total_winning_shares` — plus the
/// resolver's reward on the first claim; an invalid outcome refunds the
/// cost basis.  The market leaves this call locked: the embedding program
/// performs the quoted transfers and then releases the lock.
pub fn claim_winnings(
    market: &mut MarketAccount,
    position: &mut UserPosition,
    market_balance: u64,
    now: i64,
) -> (r: Result<ClaimOutcome, ErrorCode>)
    ensures
        old(market).state != MarketState::Finalized ==> r == Err::<ClaimOutcome, ErrorCode>(
            ErrorCode::InvalidMarketState,
        ),
        old(market).state == MarketState::Finalized && old(position).has_claimed ==> r
            == Err::<ClaimOutcome, ErrorCode>(ErrorCode::AlreadyClaimed),
        old(market).state == MarketState::Finalized && !old(position).has_claimed && old(
            market,
        ).is_locked ==> r == Err::<ClaimOutcome, ErrorCode>(ErrorCode::MarketLocked),
        r is Err ==> *final(market) == *old(market) && *final(position) == *old(position),
        // Once the three guards pass, the outcome decides the payout, and
        // every further failure is pinned to its input.
        old(market).state == MarketState::Finalized && !old(position).has_claimed && !old(
            market,
        ).is_locked ==> ({
            match old(market).final_outcome {
                Some(winner) => {
                    let user_shares = if winner {
                        old(position).shares_yes as int
                    } else {
                        old(position).shares_no as int
                    };
                    let total_shares = if winner {
                        old(market).shares_yes as int
                    } else {
                        old(market).shares_no as int
                    };
                    let payout = user_shares * old(market).current_liquidity as int
                        / total_shares;
                    &&& (user_shares == 0 ==> r == Err::<ClaimOutcome, ErrorCode>(
                        ErrorCode::NoWinnings,
                    ))
                    &&& (user_shares > 0 && total_shares == 0 ==> r == Err::<
                        ClaimOutcome,
                        ErrorCode,
                    >(ErrorCode::DivisionByZero))
                    &&& (user_shares > 0 && total_shares > 0 && payout > u64::MAX ==> r
                        == Err::<ClaimOutcome, ErrorCode>(ErrorCode::OverflowError))
                    &&& (user_shares > 0 && total_shares > 0 && payout == 0 ==> r == Err::<
                        ClaimOutcome,
                        ErrorCode,
                    >(ErrorCode::NoWinnings))
                    &&& (user_shares > 0 && total_shares > 0 && 0 < payout <= u64::MAX
                        && payout + old(market).accumulated_resolver_fees > u64::MAX ==> r
                        == Err::<ClaimOutcome, ErrorCode>(ErrorCode::OverflowError))
                    &&& (user_shares > 0 && total_shares > 0 && 0 < payout <= u64::MAX
                        && payout + old(market).accumulated_resolver_fees <= u64::MAX
                        && market_balance < payout + old(
                        market,
                    ).accumulated_resolver_fees ==> r == Err::<ClaimOutcome, ErrorCode>(
                        ErrorCode::InsufficientLiquidity,
                    ))
                    &&& (user_shares > 0 && total_shares > 0 && 0 < payout <= u64::MAX
                        && payout + old(market).accumulated_resolver_fees <= u64::MAX
                        && market_balance >= payout + old(
                        market,
                    ).accumulated_resolver_fees ==> r is Ok)
                },
                None => {
                    &&& (old(position).total_invested == 0 ==> r == Err::<
                        ClaimOutcome,
                        ErrorCode,
                    >(ErrorCode::NoWinnings))
                    &&& (old(position).total_invested > 0 && market_balance < old(
                        position,
                    ).total_invested ==> r == Err::<ClaimOutcome, ErrorCode>(
                        ErrorCode::InsufficientLiquidity,
                    ))
                    &&& (old(position).total_invested > 0 && market_balance >= old(
                        position,
                    ).total_invested ==> r is Ok)
                },
            }
        }),
        r matches Ok(out) ==> ({
            &&& old(market).state == MarketState::Finalized
            &&& !old(position).has_claimed
            &&& !old(market).is_locked
            &&& (old(market).final_outcome matches Some(winner) ==> ({
                let user_shares = if winner {
                    old(position).shares_yes as int
                } else {
                    old(position).shares_no as int
                };
                let total_shares = if winner {
                    old(market).shares_yes as int
                } else {
                    old(market).shares_no as int
                };
                &&& user_shares > 0
                &&& total_shares > 0
                &&& out.user_payout == user_shares * old(market).current_liquidity as int
                    / total_shares
                &&& out.user_payout > 0
                &&& out.resolver_payout == old(market).accumulated_resolver_fees
                &&& out.user_payout + out.resolver_payout <= market_balance
                &&& *final(market) == (MarketAccount {
                    accumulated_resolver_fees: 0,
                    is_locked: true,
                    ..*old(market)
                })
            }))
            &&& (old(market).final_outcome is None ==> ({
                &&& old(position).total_invested > 0
                &&& out.user_payout == old(position).total_invested
                &&& out.resolver_payout == 0
                &&& out.user_payout <= market_balance
                &&& *final(market) == (MarketAccount { is_locked: true, ..*old(market) })
            }))
            &&& *final(position) == (UserPosition {
                has_claimed: true,
                claimed_amount: out.user_payout,
                ..*old(position)
            })
        }),
{
    if !matches!(market.state, MarketState::Finalized) {
        return Err(ErrorCode::InvalidMarketState);
    }
    if position.has_claimed {
        return Err(ErrorCode::AlreadyClaimed);
    }
    if market.is_locked {
        return Err(ErrorCode::MarketLocked);
    }

    match market.final_outcome {
        Some(winner) => {
            let user_winning_shares = if winner {
                position.shares_yes
            } else {
                position.shares_no
            };
            let total_winning_shares = if winner {
                market.shares_yes
            } else {
                market.shares_no
            };
            if user_winning_shares == 0 {
                return Err(ErrorCode::NoWinnings);
            }
            if total_winning_shares == 0 {
                return Err(ErrorCode::DivisionByZero);
            }

            proof {
                assert((user_winning_shares as u128) * (market.current_liquidity as u128)
                    <= u128::MAX) by (nonlinear_arith);
            }
            let winnings_wide: u128 = (user_winning_shares as u128) * (market.current_liquidity
                as u128) / (total_winning_shares as u128);
            if winnings_wide > u64::MAX as u128 {
                return Err(ErrorCode::OverflowError);
            }
            let winnings: u64 = winnings_wide as u64;
            if winnings == 0 {
                return Err(ErrorCode::NoWinnings);
            }

            if winnings > u64::MAX - market.accumulated_resolver_fees {
                return Err(ErrorCode::OverflowError);
            }
            let needed: u64 = winnings + market.accumulated_resolver_fees;
            if market_balance < needed {
                return Err(ErrorCode::InsufficientLiquidity);
            }

            let resolver_payout = market.accumulated_resolver_fees;
            market.accumulated_resolver_fees = 0;
            market.is_locked = true;
            position.has_claimed = true;
            position.claimed_amount = winnings;
            Ok(ClaimOutcome { user_payout: winnings, resolver_payout })
        },
        None => {
            // Invalid outcome: every holder is refunded the cost basis.
            if position.total_invested == 0 {
                return Err(ErrorCode::NoWinnings);
            }
            let winnings = position.total_invested;
            if market_balance < winnings {
                return Err(ErrorCode::InsufficientLiquidity);
            }
            market.is_locked = true;
            position.has_claimed = true;
            position.claimed_amount = winnings;
            Ok(ClaimOutcome { user_payout: winnings, resolver_payout: 0 })
        },
    }
}

/// Withdraws everything above the rent reserve from a finalized market's
/// pool, for the creator.  The reserve is the rent floor plus a small
/// safety margin; a balance at or below that floor yields nothing to
/// withdraw and the operation fails without touching the account, so the
/// pool account never drops below its reserve.
pub fn withdraw_liquidity(
    market: &mut MarketAccount,
    caller: AccountId,
    market_balance: u64,
    rent_exempt_minimum: u64,
    now: i64,
) -> (r: Result<u64, ErrorCode>)
    ensures
        old(market).state != MarketState::Finalized ==> r == Err::<u64, ErrorCode>(
            ErrorCode::InvalidMarketState,
        ),
        old(market).state == MarketState::Finalized && caller != old(market).creator ==> r
            == Err::<u64, ErrorCode>(ErrorCode::Unauthorized),
        r is Err ==> *final(market) == *old(market),
        old(market).state == MarketState::Finalized && caller == old(market).creator
            && market_balance <= rent_exempt_minimum + 10_000 ==> r == Err::<u64, ErrorCode>(
            ErrorCode::InsufficientLiquidity,
        ),
        old(market).state == MarketState::Finalized && caller == old(market).creator
            && market_balance > rent_exempt_minimum + 10_000 ==> r is Ok,
        r matches Ok(w) ==> ({
            &&& old(market).state == MarketState::Finalized
            &&& caller == old(market).creator
            &&& w == market_balance - (rent_exempt_minimum + 10_000)
            &&& w > 0
            &&& market_balance - w >= rent_exempt_minimum
            &&& *final(market) == (MarketAccount {
                current_liquidity: 0,
                accumulated_lp_fees: 0,
                ..*old(market)
            })
        }),
{
    if !matches!(market.state, MarketState::Finalized) {
        return Err(ErrorCode::InvalidMarketState);
    }
    if caller != market.creator {
        return Err(ErrorCode::Unauthorized);
    }

    let safe_reserve: u64 = if rent_exempt_minimum > u64::MAX - 10_000 {
        u64::MAX
    } else {
        rent_exempt_minimum + 10_000
    };
    let withdrawable: u64 = if market_balance > safe_reserve {
        market_balance - safe_reserve
    } else {
        0
    };
    if withdrawable == 0 {
        return Err(ErrorCode::InsufficientLiquidity);
    }

    market.current_liquidity = 0;
    market.accumulated_lp_fees = 0;
    Ok(withdrawable)
}

} // verus!
