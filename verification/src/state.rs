//! The records the staking ledger keeps, as plain values.
//!
//! Identities (users, asset mints, collections) are opaque to the rules here:
//! the logic only ever compares them for equality, so each is carried as a
//! `u64` key. The host that derives real addresses maps them to these keys.

use vstd::prelude::*;

verus! {

/// Policy parameters, created once by `initialize_config` and immutable
/// thereafter.
#[derive(Clone, Copy, Debug, PartialEq, Eq, Structural)]
pub struct StakeConfig {
    /// Points granted per whole day an asset stays locked.
    pub points_per_stake: u8,
    /// Maximum number of assets one user may have in escrow at once.
    pub max_stake: u8,
    /// Minimum whole days an asset must stay locked before unstaking.
    pub freeze_period: u32,
    /// Identity of the authority allowed to mint rewards.
    pub reward_authority: u64,
}

/// Per-user ledger of earned points and active stakes.
#[derive(Clone, Copy, Debug, PartialEq, Eq, Structural)]
pub struct UserAccount {
    /// Points earned so far; reset to zero by `claim`.
    pub points: u32,
    /// Number of this user's assets currently in escrow.
    pub amount_staked: u8,
}

/// One row of the user ledger: a user identity with its account.
#[derive(Clone, Copy, Debug, PartialEq, Eq, Structural)]
pub struct UserEntry {
    /// The user this row belongs to.
    pub user: u64,
    /// The user's points and active-stake count.
    pub account: UserAccount,
}

/// Escrow record for one staked asset. It exists exactly while the asset is
/// custody-locked; `stake` creates it and `unstake` destroys it.
#[derive(Clone, Copy, Debug, PartialEq, Eq, Structural)]
pub struct StakeAccount {
    /// The user who staked the asset.
    pub owner: u64,
    /// The asset in escrow; at most one record per mint exists.
    pub mint: u64,
    /// Clock reading (unix seconds) at the moment the lock began.
    pub last_update: u64,
}

/// What the membership oracle reports of an asset: which asset it inspected,
/// the collection it belongs to, and whether that membership is verified.
#[derive(Clone, Copy, Debug, PartialEq, Eq, Structural)]
pub struct AssetMembership {
    /// The asset the report is about.
    pub mint: u64,
    /// The collection the asset belongs to.
    pub collection: u64,
    /// Whether the collection membership is verified.
    pub verified: bool,
}

} // verus!
