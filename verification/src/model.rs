//! The mathematical model the contracts speak of: lookups into the ledger
//! and the escrow table, the accrual arithmetic, and the decision functions
//! that fix, for every input, whether an operation succeeds and with which
//! error it is otherwise refused.

use vstd::prelude::*;

use crate::errors::StakeError;
use crate::state::{AssetMembership, StakeAccount, StakeConfig, UserEntry};

verus! {

/// Seconds in one day; elapsed lock time is truncated to whole days.
pub const SECONDS_PER_DAY: u64 = 86400;

/// Whether some ledger row belongs to `user`.
pub open spec fn has_user(users: Seq<UserEntry>, user: u64) -> bool {
    exists|i: int| 0 <= i < users.len() && users[i].user == user
}

/// The index of `user`'s ledger row. Meaningful only under `has_user` and
/// `users_unique`, which make the index unique.
pub open spec fn user_index(users: Seq<UserEntry>, user: u64) -> int {
    choose|i: int| 0 <= i < users.len() && users[i].user == user
}

/// Whether an escrow record for `mint` exists.
pub open spec fn has_stake(stakes: Seq<StakeAccount>, mint: u64) -> bool {
    exists|i: int| 0 <= i < stakes.len() && stakes[i].mint == mint
}

/// The index of the escrow record for `mint`. Meaningful only under
/// `has_stake` and `stakes_unique`.
pub open spec fn stake_index(stakes: Seq<StakeAccount>, mint: u64) -> int {
    choose|i: int| 0 <= i < stakes.len() && stakes[i].mint == mint
}

/// Each user has at most one ledger row.
pub open spec fn users_unique(users: Seq<UserEntry>) -> bool {
    forall|i: int, j: int|
        0 <= i < j < users.len() ==> users[i].user != users[j].user
}

/// Each asset has at most one escrow record: escrow is exclusive per asset.
pub open spec fn stakes_unique(stakes: Seq<StakeAccount>) -> bool {
    forall|i: int, j: int|
        0 <= i < j < stakes.len() ==> stakes[i].mint != stakes[j].mint
}

/// How many escrow records `owner` currently holds.
pub open spec fn count_owned(stakes: Seq<StakeAccount>, owner: u64) -> nat
    decreases stakes.len(),
{
    if stakes.len() == 0 {
        0
    } else {
        count_owned(stakes.drop_last(), owner)
            + if stakes.last().owner == owner { 1nat } else { 0nat }
    }
}

/// Whole days between the start of a lock and a later clock reading,
/// truncated toward zero.
pub open spec fn elapsed_days(lock_start: u64, now: u64) -> int {
    (now - lock_start) / (SECONDS_PER_DAY as int)
}

/// Ten to the `e`th power; `claim` scales points by `pow10(decimals)`.
pub open spec fn pow10(e: nat) -> nat
    decreases e,
{
    if e == 0 {
        1
    } else {
        10 * pow10((e - 1) as nat)
    }
}

/// The decision `stake` makes: `None` means the stake is accepted, `Some(e)`
/// names the one error it is refused with. Checks run in this order: the
/// configuration exists, the user is registered, the oracle report is about
/// this very asset, the collection matches and is verified, no escrow record
/// for the asset exists yet, and the user is below the concurrent-stake cap.
pub open spec fn stake_check(
    config: Option<StakeConfig>,
    users: Seq<UserEntry>,
    stakes: Seq<StakeAccount>,
    user: u64,
    mint: u64,
    collection: u64,
    membership: AssetMembership,
) -> Option<StakeError> {
    if config is None {
        Some(StakeError::NotInitialized)
    } else if !has_user(users, user) {
        Some(StakeError::UserNotRegistered)
    } else if membership.mint != mint {
        Some(StakeError::IncorrectMint)
    } else if membership.collection != collection {
        Some(StakeError::IncorrectCollection)
    } else if !membership.verified {
        Some(StakeError::CollectionNotVerified)
    } else if has_stake(stakes, mint) {
        Some(StakeError::AlreadyStaked)
    } else if users[user_index(users, user)].account.amount_staked
        >= config->Some_0.max_stake {
        Some(StakeError::MaxStakeReached)
    } else {
        None
    }
}

/// The decision `unstake` makes: the configuration exists, an escrow record
/// for the asset exists, the caller owns it, and the freeze period has fully
/// elapsed (the boundary is inclusive: exactly `freeze_period` days pass).
pub open spec fn unstake_check(
    config: Option<StakeConfig>,
    stakes: Seq<StakeAccount>,
    user: u64,
    mint: u64,
    now: u64,
) -> Option<StakeError> {
    if config is None {
        Some(StakeError::NotInitialized)
    } else if !has_stake(stakes, mint) {
        Some(StakeError::StakeRecordNotFound)
    } else if stakes[stake_index(stakes, mint)].owner != user {
        Some(StakeError::NotStakeOwner)
    } else if elapsed_days(stakes[stake_index(stakes, mint)].last_update, now)
        < config->Some_0.freeze_period {
        Some(StakeError::UnstakeLimitUnreached)
    } else {
        None
    }
}

/// The clock reading handed to `unstake` is at or after the lock start of
/// the record it addresses. The design assumes a monotonic clock, and the
/// lock start was itself a clock reading, so every caller can meet this.
pub open spec fn clock_not_regressed(stakes: Seq<StakeAccount>, mint: u64, now: u64) -> bool {
    has_stake(stakes, mint) ==> now >= stakes[stake_index(stakes, mint)].last_update
}

/// The points a successful unstake of `mint` at `now` grants: whole elapsed
/// lock-days times the configured points per day.
pub open spec fn accrued_points(
    config: Option<StakeConfig>,
    stakes: Seq<StakeAccount>,
    mint: u64,
    now: u64,
) -> int {
    elapsed_days(stakes[stake_index(stakes, mint)].last_update, now)
        * config->Some_0.points_per_stake
}

/// The machine bound the ledger's 32-bit points field forces on `unstake`:
/// where the unstake would succeed, the points granted must still fit.
pub open spec fn accrual_fits(
    config: Option<StakeConfig>,
    users: Seq<UserEntry>,
    stakes: Seq<StakeAccount>,
    user: u64,
    mint: u64,
    now: u64,
) -> bool {
    unstake_check(config, stakes, user, mint, now) is None
        ==> accrued_points(config, stakes, mint, now)
            + users[user_index(users, user)].account.points <= u32::MAX
}

/// The decision `claim` makes: the user must have a ledger; claiming zero
/// points is a well-defined no-op mint, not an error.
pub open spec fn claim_check(users: Seq<UserEntry>, user: u64) -> Option<StakeError> {
    if !has_user(users, user) {
        Some(StakeError::UserNotRegistered)
    } else {
        None
    }
}

/// The reward balance a claim by `user` mints: points scaled by
/// `pow10(decimals)`.
pub open spec fn claim_amount(users: Seq<UserEntry>, user: u64, decimals: u8) -> nat {
    users[user_index(users, user)].account.points as nat * pow10(decimals as nat)
}

/// The machine bound the 64-bit reward amount forces on `claim`: where the
/// claim would succeed, the scaled amount must fit.
pub open spec fn claim_fits(users: Seq<UserEntry>, user: u64, decimals: u8) -> bool {
    has_user(users, user) ==> claim_amount(users, user, decimals) <= u64::MAX
}

/// Powers of ten grow with the exponent.
pub proof fn lemma_pow10_increases(a: nat, b: nat)
    requires
        a <= b,
    ensures
        pow10(a) <= pow10(b),
    decreases b,
{
    if a < b {
        lemma_pow10_increases(a, (b - 1) as nat);
    }
}

/// The largest power of ten a 64-bit reward amount can carry.
pub proof fn lemma_pow10_19()
    ensures
        pow10(19) == 10000000000000000000,
{
    reveal_with_fuel(pow10, 21);
}

/// A user nobody has a record for owns nothing.
pub proof fn lemma_count_owned_absent(stakes: Seq<StakeAccount>, owner: u64)
    requires
        forall|i: int| 0 <= i < stakes.len() ==> stakes[i].owner != owner,
    ensures
        count_owned(stakes, owner) == 0,
    decreases stakes.len(),
{
    if stakes.len() > 0 {
        lemma_count_owned_absent(stakes.drop_last(), owner);
    }
}

/// Appending one record raises its owner's count by one and no other count.
pub proof fn lemma_count_owned_push(stakes: Seq<StakeAccount>, rec: StakeAccount, owner: u64)
    ensures
        count_owned(stakes.push(rec), owner)
            == count_owned(stakes, owner) + if rec.owner == owner { 1nat } else { 0nat },
{
    assert(stakes.push(rec).drop_last() =~= stakes);
}

/// Removing one record lowers its owner's count by one and no other count.
pub proof fn lemma_count_owned_remove(stakes: Seq<StakeAccount>, i: int, owner: u64)
    requires
        0 <= i < stakes.len(),
    ensures
        count_owned(stakes.remove(i), owner) + if stakes[i].owner == owner { 1nat } else { 0nat }
            == count_owned(stakes, owner),
    decreases stakes.len(),
{
    if i == stakes.len() - 1 {
        assert(stakes.remove(i) =~= stakes.drop_last());
    } else {
        lemma_count_owned_remove(stakes.drop_last(), i, owner);
        assert(stakes.remove(i).drop_last() =~= stakes.drop_last().remove(i));
        assert(stakes.remove(i).last() == stakes.last());
    }
}

/// A record at index `i` gives its owner a count of at least one.
pub proof fn lemma_count_owned_present(stakes: Seq<StakeAccount>, i: int)
    requires
        0 <= i < stakes.len(),
    ensures
        count_owned(stakes, stakes[i].owner) >= 1,
    decreases stakes.len(),
{
    if i < stakes.len() - 1 {
        lemma_count_owned_present(stakes.drop_last(), i);
    }
}

} // verus!
