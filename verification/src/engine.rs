//! The staking ledger itself and its five operations.

use vstd::prelude::*;

use crate::errors::StakeError;
use crate::model::{
    accrual_fits, accrued_points, claim_amount, claim_check, claim_fits,
    clock_not_regressed, count_owned, has_stake, has_user, lemma_count_owned_absent,
    lemma_count_owned_present, lemma_count_owned_push, lemma_count_owned_remove,
    lemma_pow10_19, lemma_pow10_increases, pow10, stake_check, stake_index,
    stakes_unique, unstake_check, user_index, users_unique, SECONDS_PER_DAY,
};
use crate::state::{AssetMembership, StakeAccount, StakeConfig, UserAccount, UserEntry};

verus! {

/// The whole persistent state of the staking system: the singleton
/// configuration, the user ledger, and the escrow records. The escrow table
/// is also the custody-lock table: an asset is locked exactly while its
/// record exists.
pub struct StakingProgram {
    /// The singleton policy configuration; `None` until initialized.
    pub config: Option<StakeConfig>,
    /// One ledger row per registered user.
    pub users: Vec<UserEntry>,
    /// One escrow record per staked asset.
    pub stakes: Vec<StakeAccount>,
}

/// Two states hold the very same records: failed operations leave the state
/// this way.
pub open spec fn same_state(a: StakingProgram, b: StakingProgram) -> bool {
    &&& a.config == b.config
    &&& a.users@ == b.users@
    &&& a.stakes@ == b.stakes@
}

/// The ledger row index of `user`, or `None` if the user never registered.
fn find_user_index(users: &Vec<UserEntry>, user: u64) -> (r: Option<usize>)
    ensures
        match r {
            Some(i) => i < users@.len() && users@[i as int].user == user,
            None => !has_user(users@, user),
        },
{
    let mut i: usize = 0;
    while i < users.len()
        invariant
            i <= users@.len(),
            forall|j: int| 0 <= j < i ==> users@[j].user != user,
        decreases users@.len() - i,
    {
        if users[i].user == user {
            return Some(i);
        }
        i += 1;
    }
    None
}

/// The escrow record index for `mint`, or `None` if the asset is not staked.
fn find_stake_index(stakes: &Vec<StakeAccount>, mint: u64) -> (r: Option<usize>)
    ensures
        match r {
            Some(i) => i < stakes@.len() && stakes@[i as int].mint == mint,
            None => !has_stake(stakes@, mint),
        },
{
    let mut i: usize = 0;
    while i < stakes.len()
        invariant
            i <= stakes@.len(),
            forall|j: int| 0 <= j < i ==> stakes@[j].mint != mint,
        decreases stakes@.len() - i,
    {
        if stakes[i].mint == mint {
            return Some(i);
        }
        i += 1;
    }
    None
}

impl StakingProgram {
    /// Well-formedness: keys are unique, every escrow record's owner has a
    /// ledger row, and each row's active-stake count equals the number of
    /// escrow records that user owns (so it can never go negative).
    pub open spec fn wf(self) -> bool {
        &&& users_unique(self.users@)
        &&& stakes_unique(self.stakes@)
        &&& forall|i: int|
            0 <= i < self.stakes@.len() ==> has_user(self.users@, self.stakes@[i].owner)
        &&& forall|i: int|
            0 <= i < self.users@.len()
                ==> self.users@[i].account.amount_staked as nat
                    == count_owned(self.stakes@, self.users@[i].user)
    }

    /// An empty system: nothing configured, nobody registered, nothing
    /// in escrow.
    pub fn new() -> (s: Self)
        ensures
            s.wf(),
            s.config is None,
            s.users@.len() == 0,
            s.stakes@.len() == 0,
    {
        StakingProgram { config: None, users: Vec::new(), stakes: Vec::new() }
    }

    /// Creates the singleton configuration; exactly once. The policy values
    /// and the reward-minting authority are fixed here and never change.
    pub fn initialize_config(
        &mut self,
        points_per_stake: u8,
        max_stake: u8,
        freeze_period: u32,
        reward_authority: u64,
    ) -> (r: Result<(), StakeError>)
        requires
            old(self).wf(),
        ensures
            final(self).wf(),
            old(self).config is Some ==> r == Err::<(), StakeError>(
                StakeError::AlreadyInitialized,
            ) && same_state(*final(self), *old(self)),
            old(self).config is None ==> r == Ok::<(), StakeError>(())
                && final(self).config == Some(
                StakeConfig { points_per_stake, max_stake, freeze_period, reward_authority },
            ) && final(self).users@ == old(self).users@
                && final(self).stakes@ == old(self).stakes@,
    {
        if self.config.is_some() {
            return Err(StakeError::AlreadyInitialized);
        }
        self.config = Some(
            StakeConfig { points_per_stake, max_stake, freeze_period, reward_authority },
        );
        Ok(())
    }

    /// Registers `user`: creates a ledger row with zero points and zero
    /// active stakes; exactly once per user. There is no deregistration.
    pub fn initialize_user(&mut self, user: u64) -> (r: Result<(), StakeError>)
        requires
            old(self).wf(),
        ensures
            final(self).wf(),
            has_user(old(self).users@, user) ==> r == Err::<(), StakeError>(
                StakeError::AlreadyRegistered,
            ) && same_state(*final(self), *old(self)),
            !has_user(old(self).users@, user) ==> r == Ok::<(), StakeError>(())
                && final(self).users@ == old(self).users@.push(
                UserEntry { user, account: UserAccount { points: 0, amount_staked: 0 } },
            ) && final(self).config == old(self).config
                && final(self).stakes@ == old(self).stakes@,
    {
        if find_user_index(&self.users, user).is_some() {
            return Err(StakeError::AlreadyRegistered);
        }
        let entry = UserEntry { user, account: UserAccount { points: 0, amount_staked: 0 } };
        self.users.push(entry);
        proof {
            let users2 = self.users@;
            let users1 = old(self).users@;
            assert forall|i: int, j: int| 0 <= i < j < users2.len() implies
                users2[i].user != users2[j].user by {
                if j < users1.len() {
                } else {
                    assert(users2[i] == users1[i]);
                    assert(users1[i].user != user);
                }
            }
            assert forall|i: int| 0 <= i < self.stakes@.len() implies
                has_user(users2, self.stakes@[i].owner) by {
                let w = choose|j: int|
                    0 <= j < users1.len() && users1[j].user == self.stakes@[i].owner;
                assert(users2[w].user == self.stakes@[i].owner);
            }
            assert forall|i: int| 0 <= i < self.stakes@.len() implies
                self.stakes@[i].owner != user by {
                assert(has_user(users1, self.stakes@[i].owner));
            }
            lemma_count_owned_absent(self.stakes@, user);
            assert forall|i: int| 0 <= i < users2.len() implies
                users2[i].account.amount_staked as nat
                    == count_owned(self.stakes@, users2[i].user) by {
                if i < users1.len() {
                    assert(users2[i] == users1[i]);
                }
            }
        }
        Ok(())
    }

    /// Places `mint` into escrow for `user`: records the lock with the clock
    /// reading `now` as its start and raises the user's active-stake count by
    /// one. `membership` is what the oracle reported of the asset, and
    /// `collection` is the collection the asset is expected to belong to.
    /// [`stake_check`] fixes exactly which error is returned otherwise; on
    /// any error the state is unchanged.
    pub fn stake(
        &mut self,
        user: u64,
        mint: u64,
        collection: u64,
        membership: AssetMembership,
        now: u64,
    ) -> (r: Result<(), StakeError>)
        requires
            old(self).wf(),
        ensures
            final(self).wf(),
            match stake_check(
                old(self).config,
                old(self).users@,
                old(self).stakes@,
                user,
                mint,
                collection,
                membership,
            ) {
                Some(e) => r == Err::<(), StakeError>(e)
                    && same_state(*final(self), *old(self)),
                None => ({
                    let ui = user_index(old(self).users@, user);
                    let row = old(self).users@[ui];
                    r == Ok::<(), StakeError>(())
                        && final(self).config == old(self).config
                        && final(self).stakes@ == old(self).stakes@.push(
                        StakeAccount { owner: user, mint, last_update: now },
                    ) && final(self).users@ == old(self).users@.update(
                        ui,
                        UserEntry {
                            user,
                            account: UserAccount {
                                points: row.account.points,
                                amount_staked: (row.account.amount_staked + 1) as u8,
                            },
                        },
                    )
                }),
            },
    {
        let cfg = match self.config {
            Some(c) => c,
            None => {
                return Err(StakeError::NotInitialized);
            },
        };
        let ui = match find_user_index(&self.users, user) {
            Some(i) => i,
            None => {
                return Err(StakeError::UserNotRegistered);
            },
        };
        proof {
            assert(has_user(old(self).users@, user));
            assert(user_index(old(self).users@, user) == ui);
        }
        if membership.mint != mint {
            return Err(StakeError::IncorrectMint);
        }
        if membership.collection != collection {
            return Err(StakeError::IncorrectCollection);
        }
        if !membership.verified {
            return Err(StakeError::CollectionNotVerified);
        }
        if find_stake_index(&self.stakes, mint).is_some() {
            return Err(StakeError::AlreadyStaked);
        }
        let row = self.users[ui];
        if row.account.amount_staked >= cfg.max_stake {
            return Err(StakeError::MaxStakeReached);
        }
        let rec = StakeAccount { owner: user, mint, last_update: now };
        self.stakes.push(rec);
        let new_row = UserEntry {
            user,
            account: UserAccount {
                points: row.account.points,
                amount_staked: row.account.amount_staked + 1,
            },
        };
        self.users.remove(ui);
        self.users.insert(ui, new_row);
        proof {
            let users1 = old(self).users@;
            let stakes1 = old(self).stakes@;
            let users2 = self.users@;
            let stakes2 = self.stakes@;
            assert(users2 =~= users1.update(ui as int, new_row));
            assert(stakes2 == stakes1.push(rec));
            assert forall|i: int, j: int| 0 <= i < j < users2.len() implies
                users2[i].user != users2[j].user by {
                assert(users2[i].user == users1[i].user);
                assert(users2[j].user == users1[j].user);
            }
            assert forall|i: int, j: int| 0 <= i < j < stakes2.len() implies
                stakes2[i].mint != stakes2[j].mint by {
                if j < stakes1.len() {
                } else {
                    assert(stakes2[i] == stakes1[i]);
                    assert(stakes1[i].mint != mint);
                }
            }
            assert forall|i: int| 0 <= i < stakes2.len() implies
                has_user(users2, stakes2[i].owner) by {
                if i < stakes1.len() {
                    let w = choose|j: int|
                        0 <= j < users1.len() && users1[j].user == stakes1[i].owner;
                    assert(users2[w].user == stakes1[i].owner);
                } else {
                    assert(users2[ui as int].user == user);
                }
            }
            assert forall|i: int| 0 <= i < users2.len() implies
                users2[i].account.amount_staked as nat
                    == count_owned(stakes2, users2[i].user) by {
                lemma_count_owned_push(stakes1, rec, users2[i].user);
                if i == ui as int {
                } else {
                    assert(users2[i] == users1[i]);
                    assert(users1[i].user != user);
                }
            }
        }
        Ok(())
    }

    /// Releases `mint` from escrow for `user`: grants
    /// `elapsed_days * points_per_stake` points (truncated to whole days,
    /// with the freeze-period boundary inclusive), lowers the user's
    /// active-stake count by one, and destroys the escrow record.
    /// Returns the points granted. [`unstake_check`] fixes exactly which
    /// error is returned otherwise; on any error the state is unchanged.
    pub fn unstake(&mut self, user: u64, mint: u64, now: u64) -> (r: Result<
        u32,
        StakeError,
    >)
        requires
            old(self).wf(),
            clock_not_regressed(old(self).stakes@, mint, now),
            accrual_fits(
                old(self).config,
                old(self).users@,
                old(self).stakes@,
                user,
                mint,
                now,
            ),
        ensures
            final(self).wf(),
            match unstake_check(old(self).config, old(self).stakes@, user, mint, now) {
                Some(e) => r == Err::<u32, StakeError>(e)
                    && same_state(*final(self), *old(self)),
                None => ({
                    let si = stake_index(old(self).stakes@, mint);
                    let ui = user_index(old(self).users@, user);
                    let row = old(self).users@[ui];
                    let gained = accrued_points(old(self).config, old(self).stakes@, mint, now);
                    r == Ok::<u32, StakeError>(gained as u32)
                        && final(self).config == old(self).config
                        && final(self).stakes@ == old(self).stakes@.remove(si)
                        && final(self).users@ == old(self).users@.update(
                        ui,
                        UserEntry {
                            user,
                            account: UserAccount {
                                points: (row.account.points + gained) as u32,
                                amount_staked: (row.account.amount_staked - 1) as u8,
                            },
                        },
                    )
                }),
            },
    {
        let cfg = match self.config {
            Some(c) => c,
            None => {
                return Err(StakeError::NotInitialized);
            },
        };
        let si = match find_stake_index(&self.stakes, mint) {
            Some(i) => i,
            None => {
                return Err(StakeError::StakeRecordNotFound);
            },
        };
        let rec = self.stakes[si];
        proof {
            assert(has_stake(old(self).stakes@, mint));
            assert(stake_index(old(self).stakes@, mint) == si);
        }
        if rec.owner != user {
            return Err(StakeError::NotStakeOwner);
        }
        let days = (now - rec.last_update) / SECONDS_PER_DAY;
        if days < cfg.freeze_period as u64 {
            return Err(StakeError::UnstakeLimitUnreached);
        }
        proof {
            assert(unstake_check(old(self).config, old(self).stakes@, user, mint, now) is None);
        }
        let gained = (days * (cfg.points_per_stake as u64)) as u32;
        let ui = match find_user_index(&self.users, user) {
            Some(i) => i,
            None => {
                proof {
                    assert(has_user(old(self).users@, old(self).stakes@[si as int].owner));
                    assert(false);
                }
                0
            },
        };
        proof {
            assert(has_user(old(self).users@, user));
            assert(user_index(old(self).users@, user) == ui);
            lemma_count_owned_present(old(self).stakes@, si as int);
        }
        let row = self.users[ui];
        let new_row = UserEntry {
            user,
            account: UserAccount {
                points: row.account.points + gained,
                amount_staked: row.account.amount_staked - 1,
            },
        };
        self.users.remove(ui);
        self.users.insert(ui, new_row);
        self.stakes.remove(si);
        proof {
            let users1 = old(self).users@;
            let stakes1 = old(self).stakes@;
            let users2 = self.users@;
            let stakes2 = self.stakes@;
            assert(users2 =~= users1.update(ui as int, new_row));
            assert(stakes2 == stakes1.remove(si as int));
            assert forall|i: int, j: int| 0 <= i < j < users2.len() implies
                users2[i].user != users2[j].user by {
                assert(users2[i].user == users1[i].user);
                assert(users2[j].user == users1[j].user);
            }
            assert forall|i: int, j: int| 0 <= i < j < stakes2.len() implies
                stakes2[i].mint != stakes2[j].mint by {
                let i1: int = if i < si { i } else { i + 1 };
                let j1: int = if j < si { j } else { j + 1 };
                assert(stakes2[i] == stakes1[i1]);
                assert(stakes2[j] == stakes1[j1]);
            }
            assert forall|i: int| 0 <= i < stakes2.len() implies
                has_user(users2, stakes2[i].owner) by {
                let i1: int = if i < si { i } else { i + 1 };
                assert(stakes2[i] == stakes1[i1]);
                let w = choose|j: int|
                    0 <= j < users1.len() && users1[j].user == stakes1[i1].owner;
                assert(users2[w].user == stakes1[i1].owner);
            }
            assert forall|i: int| 0 <= i < users2.len() implies
                users2[i].account.amount_staked as nat
                    == count_owned(stakes2, users2[i].user) by {
                lemma_count_owned_remove(stakes1, si as int, users2[i].user);
                if i == ui as int {
                } else {
                    assert(users2[i] == users1[i]);
                    assert(users1[i].user != user);
                }
            }
        }
        Ok(gained)
    }

    /// Redeems `user`'s points: returns the reward balance the custody
    /// backend is to mint — the points scaled by ten to `decimals`, the
    /// scale the reward asset defines — and resets the points to zero.
    /// Claiming with zero points is a well-defined mint of zero, not an
    /// error; active stakes are untouched.
    pub fn claim(&mut self, user: u64, decimals: u8) -> (r: Result<u64, StakeError>)
        requires
            old(self).wf(),
            decimals <= 19,
            claim_fits(old(self).users@, user, decimals),
        ensures
            final(self).wf(),
            match claim_check(old(self).users@, user) {
                Some(e) => r == Err::<u64, StakeError>(e)
                    && same_state(*final(self), *old(self)),
                None => ({
                    let ui = user_index(old(self).users@, user);
                    let row = old(self).users@[ui];
                    r == Ok::<u64, StakeError>(
                        claim_amount(old(self).users@, user, decimals) as u64,
                    ) && final(self).config == old(self).config
                        && final(self).stakes@ == old(self).stakes@
                        && final(self).users@ == old(self).users@.update(
                        ui,
                        UserEntry {
                            user,
                            account: UserAccount {
                                points: 0,
                                amount_staked: row.account.amount_staked,
                            },
                        },
                    )
                }),
            },
    {
        let ui = match find_user_index(&self.users, user) {
            Some(i) => i,
            None => {
                return Err(StakeError::UserNotRegistered);
            },
        };
        proof {
            assert(has_user(old(self).users@, user));
            assert(user_index(old(self).users@, user) == ui);
        }
        let row = self.users[ui];
        let scale = pow_of_ten(decimals);
        let amount = (row.account.points as u64) * scale;
        let new_row = UserEntry {
            user,
            account: UserAccount { points: 0, amount_staked: row.account.amount_staked },
        };
        self.users.remove(ui);
        self.users.insert(ui, new_row);
        proof {
            let users1 = old(self).users@;
            let users2 = self.users@;
            assert(users2 =~= users1.update(ui as int, new_row));
            assert forall|i: int, j: int| 0 <= i < j < users2.len() implies
                users2[i].user != users2[j].user by {
                assert(users2[i].user == users1[i].user);
                assert(users2[j].user == users1[j].user);
            }
            assert forall|i: int| 0 <= i < self.stakes@.len() implies
                has_user(users2, self.stakes@[i].owner) by {
                let w = choose|j: int|
                    0 <= j < users1.len() && users1[j].user == self.stakes@[i].owner;
                assert(users2[w].user == self.stakes@[i].owner);
            }
            assert forall|i: int| 0 <= i < users2.len() implies
                users2[i].account.amount_staked as nat
                    == count_owned(self.stakes@, users2[i].user) by {
                assert(users2[i].user == users1[i].user);
                assert(users2[i].account.amount_staked == users1[i].account.amount_staked);
            }
        }
        Ok(amount)
    }

    /// Whether `mint` is currently custody-locked — exactly while its escrow
    /// record exists. Any external transfer path must check this before
    /// moving the asset.
    pub fn is_locked(&self, mint: u64) -> (r: bool)
        ensures
            r == has_stake(self.stakes@, mint),
    {
        match find_stake_index(&self.stakes, mint) {
            Some(i) => {
                proof {
                    assert(has_stake(self.stakes@, mint));
                }
                true
            },
            None => false,
        }
    }

    /// The ledger row of `user`, if the user ever registered.
    pub fn ledger_of(&self, user: u64) -> (r: Option<UserAccount>)
        requires
            self.wf(),
        ensures
            match r {
                Some(a) => has_user(self.users@, user)
                    && a == self.users@[user_index(self.users@, user)].account,
                None => !has_user(self.users@, user),
            },
    {
        match find_user_index(&self.users, user) {
            Some(i) => {
                proof {
                    assert(has_user(self.users@, user));
                    assert(user_index(self.users@, user) == i);
                }
                Some(self.users[i].account)
            },
            None => None,
        }
    }

    /// The escrow record for `mint`, if the asset is staked.
    pub fn stake_record(&self, mint: u64) -> (r: Option<StakeAccount>)
        requires
            self.wf(),
        ensures
            match r {
                Some(rec) => has_stake(self.stakes@, mint)
                    && rec == self.stakes@[stake_index(self.stakes@, mint)],
                None => !has_stake(self.stakes@, mint),
            },
    {
        match find_stake_index(&self.stakes, mint) {
            Some(i) => {
                proof {
                    assert(has_stake(self.stakes@, mint));
                    assert(stake_index(self.stakes@, mint) == i);
                }
                Some(self.stakes[i])
            },
            None => None,
        }
    }
}

/// Ten to the `e`th power; every scale a 64-bit reward amount can carry.
fn pow_of_ten(e: u8) -> (r: u64)
    requires
        e <= 19,
    ensures
        r as nat == pow10(e as nat),
{
    let mut acc: u64 = 1;
    let mut i: u8 = 0;
    while i < e
        invariant
            i <= e,
            e <= 19,
            acc as nat == pow10(i as nat),
        decreases e - i,
    {
        proof {
            lemma_pow10_increases(i as nat + 1, 19);
            lemma_pow10_19();
        }
        acc = acc * 10;
        i += 1;
    }
    acc
}

} // verus!
