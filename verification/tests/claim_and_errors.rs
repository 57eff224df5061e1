use nft_staking::engine::StakingProgram;
use nft_staking::errors::StakeError;
use nft_staking::state::AssetMembership;

const DAY: u64 = 86400;

const COLLECTION: u64 = 3;

fn member(mint: u64) -> AssetMembership {
    AssetMembership { mint, collection: COLLECTION, verified: true }
}

fn setup(points_per_stake: u8, max_stake: u8, freeze_period: u32) -> StakingProgram {
    let mut s = StakingProgram::new();
    s.initialize_config(points_per_stake, max_stake, freeze_period, 42)
        .unwrap();
    s.initialize_user(1).unwrap();
    s
}

#[test]
fn claim_mints_scaled_points_and_resets() {
    let mut s = setup(10, 5, 0);
    assert_eq!(s.stake(1, 7, COLLECTION, member(7), 0), Ok(()));
    assert_eq!(s.unstake(1, 7, 3 * DAY), Ok(30));
    assert_eq!(s.claim(1, 2), Ok(3000));
    assert_eq!(s.ledger_of(1).unwrap().points, 0);
}

#[test]
fn second_claim_mints_zero() {
    let mut s = setup(10, 5, 0);
    assert_eq!(s.stake(1, 7, COLLECTION, member(7), 0), Ok(()));
    assert_eq!(s.unstake(1, 7, DAY), Ok(10));
    assert_eq!(s.claim(1, 6), Ok(10_000_000));
    assert_eq!(s.claim(1, 6), Ok(0));
    assert_eq!(s.ledger_of(1).unwrap().points, 0);
}

#[test]
fn claim_with_no_points_mints_zero() {
    let mut s = setup(10, 5, 0);
    assert_eq!(s.claim(1, 9), Ok(0));
}

#[test]
fn claim_with_zero_decimals_mints_bare_points() {
    let mut s = setup(10, 5, 0);
    assert_eq!(s.stake(1, 7, COLLECTION, member(7), 0), Ok(()));
    assert_eq!(s.unstake(1, 7, DAY), Ok(10));
    assert_eq!(s.claim(1, 0), Ok(10));
}

#[test]
fn claim_with_largest_scale() {
    let mut s = setup(1, 5, 0);
    assert_eq!(s.stake(1, 7, COLLECTION, member(7), 0), Ok(()));
    assert_eq!(s.unstake(1, 7, DAY), Ok(1));
    assert_eq!(s.claim(1, 19), Ok(10_000_000_000_000_000_000));
}

#[test]
fn claim_keeps_active_stakes() {
    let mut s = setup(10, 5, 0);
    assert_eq!(s.stake(1, 7, COLLECTION, member(7), 0), Ok(()));
    assert_eq!(s.claim(1, 6), Ok(0));
    assert_eq!(s.ledger_of(1).unwrap().amount_staked, 1);
    assert!(s.is_locked(7));
}

#[test]
fn second_stake_of_same_asset_fails() {
    let mut s = setup(10, 5, 2);
    s.initialize_user(2).unwrap();
    assert_eq!(s.stake(1, 7, COLLECTION, member(7), 0), Ok(()));
    // A competing attempt on the same asset, by the owner or anyone else,
    // fails because the escrow record already exists.
    assert_eq!(
        s.stake(1, 7, COLLECTION, member(7), 0),
        Err(StakeError::AlreadyStaked)
    );
    assert_eq!(
        s.stake(2, 7, COLLECTION, member(7), 5),
        Err(StakeError::AlreadyStaked)
    );
    assert_eq!(s.ledger_of(1).unwrap().amount_staked, 1);
    assert_eq!(s.ledger_of(2).unwrap().amount_staked, 0);
}

#[test]
fn stake_requires_initialized_config() {
    let mut s = StakingProgram::new();
    s.initialize_user(1).unwrap();
    assert_eq!(
        s.stake(1, 7, COLLECTION, member(7), 0),
        Err(StakeError::NotInitialized)
    );
    assert_eq!(s.unstake(1, 7, 0), Err(StakeError::NotInitialized));
}

#[test]
fn config_initializes_only_once() {
    let mut s = StakingProgram::new();
    assert_eq!(s.initialize_config(10, 5, 2, 42), Ok(()));
    assert_eq!(
        s.initialize_config(11, 6, 3, 43),
        Err(StakeError::AlreadyInitialized)
    );
    let cfg = s.config.unwrap();
    assert_eq!(cfg.points_per_stake, 10);
    assert_eq!(cfg.max_stake, 5);
    assert_eq!(cfg.freeze_period, 2);
    assert_eq!(cfg.reward_authority, 42);
}

#[test]
fn user_registers_only_once() {
    let mut s = StakingProgram::new();
    assert_eq!(s.initialize_user(1), Ok(()));
    assert_eq!(s.initialize_user(1), Err(StakeError::AlreadyRegistered));
}

#[test]
fn unregistered_user_is_refused() {
    let mut s = setup(10, 5, 0);
    assert_eq!(
        s.stake(9, 7, COLLECTION, member(7), 0),
        Err(StakeError::UserNotRegistered)
    );
    assert_eq!(s.claim(9, 6), Err(StakeError::UserNotRegistered));
}

#[test]
fn wrong_oracle_subject_is_refused() {
    let mut s = setup(10, 5, 0);
    // The oracle reported on asset 8, not on the asset being staked.
    assert_eq!(
        s.stake(1, 7, COLLECTION, member(8), 0),
        Err(StakeError::IncorrectMint)
    );
}

#[test]
fn wrong_collection_is_refused() {
    let mut s = setup(10, 5, 0);
    let m = AssetMembership { mint: 7, collection: COLLECTION + 1, verified: true };
    assert_eq!(
        s.stake(1, 7, COLLECTION, m, 0),
        Err(StakeError::IncorrectCollection)
    );
}

#[test]
fn unverified_collection_is_refused() {
    let mut s = setup(10, 5, 0);
    let m = AssetMembership { mint: 7, collection: COLLECTION, verified: false };
    assert_eq!(
        s.stake(1, 7, COLLECTION, m, 0),
        Err(StakeError::CollectionNotVerified)
    );
}

#[test]
fn unstaking_an_unstaked_asset_fails() {
    let mut s = setup(10, 5, 0);
    assert_eq!(s.unstake(1, 7, 0), Err(StakeError::StakeRecordNotFound));
}

#[test]
fn only_the_owner_can_unstake() {
    let mut s = setup(10, 5, 0);
    s.initialize_user(2).unwrap();
    assert_eq!(s.stake(1, 7, COLLECTION, member(7), 0), Ok(()));
    assert_eq!(s.unstake(2, 7, DAY), Err(StakeError::NotStakeOwner));
    assert!(s.is_locked(7));
}

#[test]
fn concurrent_stake_cap_is_enforced() {
    let mut s = setup(10, 2, 0);
    assert_eq!(s.stake(1, 7, COLLECTION, member(7), 0), Ok(()));
    assert_eq!(s.stake(1, 8, COLLECTION, member(8), 0), Ok(()));
    assert_eq!(
        s.stake(1, 9, COLLECTION, member(9), 0),
        Err(StakeError::MaxStakeReached)
    );
    // Unstaking frees a slot.
    assert_eq!(s.unstake(1, 7, 0), Ok(0));
    assert_eq!(s.stake(1, 9, COLLECTION, member(9), 0), Ok(()));
}

#[test]
fn ledgers_are_independent() {
    let mut s = setup(10, 5, 0);
    s.initialize_user(2).unwrap();
    assert_eq!(s.stake(1, 7, COLLECTION, member(7), 0), Ok(()));
    assert_eq!(s.stake(2, 8, COLLECTION, member(8), 0), Ok(()));
    assert_eq!(s.unstake(1, 7, 2 * DAY), Ok(20));
    assert_eq!(s.ledger_of(1).unwrap().points, 20);
    assert_eq!(s.ledger_of(2).unwrap().points, 0);
    assert_eq!(s.ledger_of(2).unwrap().amount_staked, 1);
    assert_eq!(s.claim(2, 6), Ok(0));
    assert_eq!(s.ledger_of(1).unwrap().points, 20);
}
