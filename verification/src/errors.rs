//! The failure conditions of the market and token operations.
//!
//! Every precondition failure aborts the whole operation: an operation that
//! returns one of these errors leaves the contract state exactly as it was.

use vstd::prelude::*;

verus! {

/// Why a market or token operation was refused.
#[derive(Clone, Copy, Debug, PartialEq, Eq, Structural)]
pub enum Error {
    /// The contract has no admin configured yet.
    NotInitialized,
    /// The contract already has an admin configured.
    AlreadyInitialized,
    /// The caller is not the principal the operation is gated on.
    Unauthorized,
    /// No round is stored under the given round id.
    RoundNotFound,
    /// Betting on the round is closed: the round has ended, or the bet fell
    /// inside the anti-sniping window before the end.
    RoundClosed,
    /// The outcome bin id is not one of the five bins.
    InvalidBin,
    /// The amount is below the minimum bet, zero, or negative.
    InvalidAmount,
    /// The round was already finalized; finalizing is exactly-once.
    AlreadyFinalized,
    /// The revealed secret does not hash to the stored commitment.
    InvalidSeed,
    /// The round has not been finalized yet.
    NotFinalized,
    /// The caller holds no stake in the round's winning bin.
    NoWinningBet,
    /// The winning bin holds no stake at all, so no payout share exists.
    NoWinnersInBin,
    /// The caller already settled this round; claiming is exactly-once.
    AlreadyClaimed,
    /// A round with this id already exists.
    AlreadyExists,
    /// The end time of a new round is not in the future.
    InvalidEndTime,
    /// The balance is too small for the requested burn.
    InsufficientBalance,
}

} // verus!
