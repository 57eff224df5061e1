//! Laws that relate several operations, stated over the same model the
//! operations' contracts use and proved once for all inputs.

use vstd::prelude::*;

use crate::errors::StakeError;
use crate::model::{
    claim_amount, elapsed_days, has_stake, has_user, stake_check, stake_index,
    unstake_check, user_index, users_unique,
};
use crate::state::{AssetMembership, StakeAccount, StakeConfig, UserAccount, UserEntry};

verus! {

/// Escrow is exclusive per asset: once a stake of `rec.mint` has been
/// recorded, any competing stake attempt for the same asset — by any user,
/// however valid otherwise — is refused because the record already exists.
/// Of two overlapping attempts, at most the first can succeed.
pub proof fn lemma_concurrent_stake_excluded(
    config: Option<StakeConfig>,
    users: Seq<UserEntry>,
    stakes: Seq<StakeAccount>,
    rec: StakeAccount,
    user2: u64,
    collection2: u64,
    membership2: AssetMembership,
)
    requires
        config is Some,
        has_user(users, user2),
        membership2.mint == rec.mint,
        membership2.collection == collection2,
        membership2.verified,
    ensures
        stake_check(
            config,
            users,
            stakes.push(rec),
            user2,
            rec.mint,
            collection2,
            membership2,
        ) == Some(StakeError::AlreadyStaked),
{
    assert(stakes.push(rec)[stakes.len() as int].mint == rec.mint);
    assert(has_stake(stakes.push(rec), rec.mint));
}

/// However valid the rest of the attempt, an unstake before the freeze
/// period has fully elapsed is refused with `UnstakeLimitUnreached`.
pub proof fn lemma_unstake_before_freeze_fails(
    config: Option<StakeConfig>,
    stakes: Seq<StakeAccount>,
    user: u64,
    mint: u64,
    now: u64,
)
    requires
        config is Some,
        has_stake(stakes, mint),
        stakes[stake_index(stakes, mint)].owner == user,
        elapsed_days(stakes[stake_index(stakes, mint)].last_update, now)
            < config->Some_0.freeze_period,
    ensures
        unstake_check(config, stakes, user, mint, now)
            == Some(StakeError::UnstakeLimitUnreached),
{
}

/// The freeze-period boundary is inclusive: the moment exactly
/// `freeze_period` whole days have elapsed, an otherwise valid unstake
/// goes through.
pub proof fn lemma_unstake_at_boundary_succeeds(
    config: Option<StakeConfig>,
    stakes: Seq<StakeAccount>,
    user: u64,
    mint: u64,
    now: u64,
)
    requires
        config is Some,
        has_stake(stakes, mint),
        stakes[stake_index(stakes, mint)].owner == user,
        elapsed_days(stakes[stake_index(stakes, mint)].last_update, now)
            == config->Some_0.freeze_period,
    ensures
        unstake_check(config, stakes, user, mint, now) is None,
{
}

/// A claim resets the claimer's points to zero, so a second claim with no
/// intervening unstake mints exactly zero.
pub proof fn lemma_second_claim_mints_zero(users: Seq<UserEntry>, user: u64, decimals: u8)
    requires
        users_unique(users),
        has_user(users, user),
    ensures
        ({
            let i = user_index(users, user);
            let row = users[i];
            let after = users.update(
                i,
                UserEntry {
                    user,
                    account: UserAccount {
                        points: 0,
                        amount_staked: row.account.amount_staked,
                    },
                },
            );
            claim_amount(after, user, decimals) == 0
        }),
{
    let i = user_index(users, user);
    let row = users[i];
    let after = users.update(
        i,
        UserEntry {
            user,
            account: UserAccount { points: 0, amount_staked: row.account.amount_staked },
        },
    );
    assert(after[i].user == user);
    assert(has_user(after, user));
    let k = user_index(after, user);
    if k != i {
        assert(after[k].user == users[k].user);
        assert(users[i].user == user);
        assert(false);
    }
    assert(after[k].account.points == 0);
}

} // verus!
