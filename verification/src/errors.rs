//! The failure taxonomy shared by every operation of the library.
//!
//! No operation recovers internally: a failure aborts the whole operation and
//! is surfaced verbatim to the caller.

use vstd::prelude::*;

verus! {

/// Every way an operation of this library can fail.
#[derive(Clone, Copy, Debug, PartialEq, Eq, Structural)]
pub enum ErrorCode {
    // Configuration
    /// Total fees exceed 100%.
    InvalidFeeConfiguration,
    /// A threshold is above 10000 basis points.
    InvalidThreshold,
    /// A time limit is zero or negative.
    InvalidTimeLimit,
    /// The global configuration was already initialized.
    AlreadyInitialized,
    /// Fee rates handed to an update sum to more than 100%.
    InvalidFeeStructure,

    // State
    /// The requested edge is not in the lifecycle transition table.
    InvalidStateTransition,
    /// The market is not in the state this operation needs.
    InvalidMarketState,
    /// The market is paused.
    MarketPaused,
    /// The market is cancelled.
    MarketCancelled,
    /// The protocol-wide pause flag is set.
    ProtocolPaused,
    /// Only proposed or approved markets can be cancelled.
    CannotCancelMarket,
    /// The market is already cancelled.
    MarketAlreadyCancelled,
    /// The market's reentrancy lock is already held.
    MarketLocked,

    // Trading
    /// The trading amount is zero.
    ZeroAmount,
    /// The trade is below the minimum trade size.
    TradeTooSmall,
    /// Not enough shares for the sell.
    InsufficientShares,
    /// The realized price moved past the caller's tolerance.
    SlippageExceeded,
    /// The market pool cannot cover the payout.
    InsufficientLiquidity,
    /// The liquidity amount is zero.
    InvalidLiquidity,

    // Resolution
    /// The resolution period has not ended.
    ResolutionPeriodNotEnded,
    /// The dispute window has closed.
    DisputePeriodEnded,
    /// No resolution was proposed.
    NoResolutionProposed,
    /// Winnings were already claimed for this position.
    AlreadyClaimed,
    /// The position holds no shares on the winning side.
    NoWinnings,
    /// No votes were recorded.
    NoVotesRecorded,
    /// The tally does not reach the threshold.
    InsufficientVotes,
    /// A resolution was already proposed for this market.
    AlreadyResolved,
    /// The dispute window has not ended.
    DisputePeriodNotEnded,
    /// The market is already disputed.
    AlreadyDisputed,

    // Authorization
    /// The caller is not allowed to perform this operation.
    Unauthorized,
    /// The caller is not the admin.
    InvalidAdmin,
    /// The caller is not the recorded resolver.
    InvalidResolver,
    /// The resolver's reputation is below the configured minimum.
    InsufficientReputation,

    // Arithmetic
    /// A result does not fit the native width.
    OverflowError,
    /// A subtraction would go below zero.
    UnderflowError,
    /// Division by zero.
    DivisionByZero,
    /// A fixed-point value is outside its domain.
    InvalidFixedPoint,
    /// Logarithm of zero.
    InvalidLogarithm,
    /// The exponential result is too large.
    ExponentialOverflow,
    /// The exponent is outside the supported domain.
    ExponentTooLarge,
    /// An input is outside the domain of a mathematical operation.
    InvalidInput,
    /// The realized loss exceeds the LMSR ceiling of b times ln 2.
    BoundedLossExceeded,

    // Validation
    /// The liquidity parameter b is out of range.
    InvalidBParameter,
    /// The market identifier is malformed.
    InvalidMarketId,
    /// A timestamp is out of order or outside the sane window.
    InvalidTimestamp,
    /// The evidence reference is malformed.
    InvalidIpfsHash,
    /// The account balance cannot cover the operation.
    InsufficientFunds,
    /// The transfer would leave the account below its rent reserve.
    WouldBreakRentExemption,

    // Voting
    /// A vote by this voter for this market and kind already exists.
    AlreadyVoted,
    /// The market is not in a state that accepts this vote.
    InvalidStateForVoting,
}

} // verus!
