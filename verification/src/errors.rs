use vstd::prelude::*;

verus! {

/// Why an operation on a session was refused.
///
/// Every refusal leaves the session exactly as it was.
#[derive(Clone, Copy, Debug, PartialEq, Eq, Structural)]
pub enum WagerError {
    /// The operation is not legal in the session's current lifecycle state.
    InvalidState,
    /// The named player holds no slot where one was looked for.
    PlayerNotFound,
    /// The player already holds a slot in one of the two teams.
    DuplicatePlayer,
    /// The selected team has no free slot left.
    TeamFull,
    /// The team selector is not 0 or 1, or two teams that must differ are equal.
    InvalidTeam,
    /// The stake lies outside the configured bounds.
    InvalidBetAmount,
    /// A counter or an amount would exceed what its type can hold.
    ArithmeticOverflow,
    /// A counter would drop below zero. No operation of this ledger returns
    /// it: a spawn count that has nothing left to give stays at zero.
    ArithmeticUnderflow,
    /// The escrow vault holds less than the operation has to pay out.
    InsufficientVaultBalance,
    /// The session was already refunded.
    AlreadySettled,
    /// The configured spawn limits stand against the purchase: the player
    /// holds as many credits as may be held before buying, or the session
    /// has taken as many purchases as it may.
    SpawnLimitExceeded,
}

} // verus!
