//! An automated market maker for binary-outcome prediction markets.
//!
//! The pricing engine follows the Logarithmic Market Scoring Rule (LMSR),
//! implemented entirely in scaled-integer fixed-point arithmetic so that every
//! result is bit-reproducible.  Around the pricing engine sit a bounded-loss
//! verifier, a fee splitter that never leaks value through rounding, a
//! seven-state market lifecycle machine with vote-gated transitions, and a
//! vote ledger that rejects duplicate ballots.
//!
//! All balances, clock readings and caller identities enter through plain
//! values; moving funds and reading the clock are the embedding program's
//! concern.

pub mod admin;
pub mod bounded_loss;
pub mod errors;
pub mod fees;
pub mod fixed_point;
pub mod global_config;
pub mod lifecycle;
pub mod lmsr;
pub mod market;
pub mod position;
pub mod rent;
pub mod trading;
pub mod vote_record;
pub mod voting;
