//! The named errors an operation can fail with.

use vstd::prelude::*;

verus! {

/// Every way an operation of the staking ledger can be refused.
///
/// Each operation fails fast with exactly one of these and leaves the state
/// untouched; the contracts in [`crate::engine`] say for each operation which
/// error comes on which inputs.
#[derive(Clone, Copy, Debug, PartialEq, Eq, Structural)]
pub enum StakeError {
    /// The asset handed to `stake` is not the asset the oracle reported on.
    IncorrectMint,
    /// The asset belongs to a collection other than the expected one.
    IncorrectCollection,
    /// The asset's collection membership is not verified by the oracle.
    CollectionNotVerified,
    /// The freeze period has not elapsed yet, so the asset stays in escrow.
    UnstakeLimitUnreached,
    /// The singleton configuration was already created.
    AlreadyInitialized,
    /// No configuration exists yet, so no asset can be staked or unstaked.
    NotInitialized,
    /// The user already has a ledger.
    AlreadyRegistered,
    /// The user has no ledger.
    UserNotRegistered,
    /// No escrow record exists for the asset.
    StakeRecordNotFound,
    /// The caller is not the owner recorded in the escrow record.
    NotStakeOwner,
    /// An escrow record for the asset already exists.
    AlreadyStaked,
    /// The user already has the configured maximum of concurrent stakes.
    MaxStakeReached,
}

} // verus!
