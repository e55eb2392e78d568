use vstd::prelude::*;

verus! {

/// Why a call was rejected.  Every rejected precondition aborts the whole
/// call: the operation returns the error and leaves the state unchanged.
#[derive(Clone, Copy, Debug, PartialEq, Eq, Structural)]
pub enum TimeError {
    /// The identity nullifier, or the claiming account itself, already
    /// backs a citizen record.
    DuplicateIdentity,
    /// The acting account holds no citizen record.
    UnknownCitizen,
    /// The caller is not an approved work verifier.
    Unauthorized,
    /// The citizen's spendable balance is smaller than the requested amount.
    InsufficientBalance,
    /// The tracked amount on the source choice is smaller than the amount
    /// to move, or the source choice has no entry at all.
    InsufficientAllocation,
    /// The stake would push the position past twice the citizen's attested
    /// earnings.
    StakeCapExceeded,
    /// The percentage allocations of a staking position would sum past 100.
    AllocationOverflow,
    /// The unstake cooldown has not been requested or has not elapsed yet.
    CooldownNotElapsed,
    /// The citizen holds no staking position.
    NoPosition,
    /// The opportunity does not exist or is no longer accepting funds.
    OpportunityNotActive,
    /// The claimed birthdate lies after the current time.
    InvalidBirthdate,
    /// A work attestation over zero hours is rejected outright.
    ZeroHours,
}

} // verus!
