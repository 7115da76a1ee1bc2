use ionova_core::staking::{BlockRewardConfig, StakingError, StakingRewards, ValidatorStake};
use ionova_core::transaction::COIN;

fn validator(name: &str, self_stake: u64, delegators: Vec<(String, u64)>, rate: u128) -> ValidatorStake {
    let delegated = delegators.iter().map(|d| d.1).sum();
    ValidatorStake {
        operator: name.to_string(),
        self_stake,
        delegated_stake: delegated,
        commission_rate: rate,
        delegators,
    }
}

fn paid_out(d: &ionova_core::staking::BlockRewardDistribution) -> u128 {
    let validators: u128 = d
        .validator_rewards
        .iter()
        .map(|(_, r)| r.operator_reward + r.delegator_rewards.iter().map(|x| x.1).sum::<u128>())
        .sum();
    let sequencers: u128 = d.sequencer_rewards.iter().map(|x| x.1).sum();
    validators + sequencers + d.treasury_amount
}

#[test]
fn staking_test_block_reward_halving() {
    let staking = StakingRewards::new(BlockRewardConfig::default(), 0);
    assert_eq!(staking.calculate_block_reward(0), 79_300_000_000_000_000_000);
    assert_eq!(staking.calculate_block_reward(63_072_000), 39_650_000_000_000_000_000);
    assert_eq!(staking.calculate_block_reward(63_072_000 * 2), 19_825_000_000_000_000_000);
}

#[test]
fn test_commission_calculation() {
    let validator = ValidatorStake {
        operator: "val1".to_string(),
        self_stake: 100_000,
        delegated_stake: 900_000,
        commission_rate: COIN / 10,
        delegators: vec![],
    };
    let staking = StakingRewards::new(BlockRewardConfig::default(), 0);
    let (operator_reward, delegator_pool) = staking.apply_commission(&validator, 79_300_000_000_000_000_000);
    assert_eq!(operator_reward, 15_067_000_000_000_000_000);
    assert_eq!(delegator_pool, 64_233_000_000_000_000_000);
}

#[test]
fn distribution_adds_up_to_the_reward_exactly() {
    let mut staking = StakingRewards::new(BlockRewardConfig::default(), 0);
    staking.add_validator(validator("a", 100, vec![("d1".to_string(), 200), ("d2".to_string(), 3)], COIN / 20));
    staking.add_validator(validator("b", 7, vec![], COIN / 3));
    let sequencers = vec!["s1".to_string(), "s2".to_string(), "s3".to_string()];
    let total = 79_300_000_000_000_000_001;
    let d = staking.distribute_reward(total, &sequencers);
    assert_eq!(d.total_reward, total);
    assert_eq!(paid_out(&d), total);
    assert_eq!(staking.treasury_balance, d.treasury_amount);
    assert_eq!(d.sequencer_rewards.len(), 3);
    let pool = total * 2 / 10;
    assert_eq!(d.sequencer_rewards[0].1, pool / 3);
}

#[test]
fn even_split_leaves_exact_shares() {
    let mut staking = StakingRewards::new(BlockRewardConfig::default(), 0);
    staking.add_validator(validator("v", 50, vec![("d".to_string(), 50)], COIN / 10));
    let d = staking.distribute_reward(100 * COIN, &vec!["s".to_string()]);
    assert_eq!(d.sequencer_rewards[0].1, 20 * COIN);
    assert_eq!(d.treasury_amount, 10 * COIN);
    let v = &d.validator_rewards[0].1;
    assert_eq!(v.operator_reward, 35 * COIN + 35 * COIN / 10);
    assert_eq!(v.delegator_rewards[0].1, 35 * COIN - 35 * COIN / 10);
}

#[test]
fn no_sequencers_sends_their_part_to_the_treasury() {
    let mut staking = StakingRewards::new(BlockRewardConfig::default(), 0);
    let d = staking.distribute_reward(10 * COIN, &vec![]);
    assert_eq!(d.treasury_amount, 10 * COIN);
    assert_eq!(paid_out(&d), 10 * COIN);
}

#[test]
fn delegation_needs_a_known_validator() {
    let mut staking = StakingRewards::new(BlockRewardConfig::default(), 0);
    staking.add_validator(validator("v", 10, vec![], 0));
    assert_eq!(staking.delegate("w", "d".to_string(), 5), Err(StakingError::ValidatorNotFound));
    assert_eq!(staking.delegate("v", "d".to_string(), 5), Ok(()));
    assert_eq!(staking.validators[0].delegated_stake, 5);
    assert_eq!(staking.total_network_stake(), 15);
    let mut emission = ionova_core::emission::EmissionSchedule::new(0);
    let d = staking.distribute_block_reward(&mut emission, 0, &vec![]);
    assert_eq!(d.total_reward, 79_350_000_000_000_000_000);
    assert_eq!(emission.total_minted, d.total_reward);
    assert_eq!(paid_out(&d), d.total_reward);
}

#[test]
fn repeated_delegation_adds_to_the_same_entry() {
    let mut staking = StakingRewards::new(BlockRewardConfig::default(), 0);
    staking.add_validator(validator("v", 10, vec![("d".to_string(), 2)], 0));
    assert_eq!(staking.delegate("v", "d".to_string(), 5), Ok(()));
    assert_eq!(staking.delegate("v", "e".to_string(), 1), Ok(()));
    let v = &staking.validators[0];
    assert_eq!(v.delegators, vec![("d".to_string(), 7), ("e".to_string(), 1)]);
    assert_eq!(v.delegated_stake, 8);
}

#[test]
fn validators_are_kept_and_rewarded_in_id_order() {
    let mut staking = StakingRewards::new(BlockRewardConfig::default(), 0);
    for name in ["val-b", "val-a", "val-c", "val-aa"] {
        staking.add_validator(validator(name, 10, vec![], 0));
    }
    let ids: Vec<String> = staking.validators.iter().map(|v| v.operator.clone()).collect();
    assert_eq!(ids, vec!["val-a", "val-aa", "val-b", "val-c"]);
    let d = staking.distribute_reward(COIN, &vec![]);
    let paid: Vec<String> = d.validator_rewards.iter().map(|(id, _)| id.clone()).collect();
    assert_eq!(paid, ids);
}

#[test]
fn large_rewards_are_split_without_overflow() {
    let mut staking = StakingRewards::new(BlockRewardConfig::default(), 0);
    staking.add_validator(validator("v", 1, vec![("d".to_string(), 1)], COIN / 10));
    let total = 1_000_000 * COIN;
    let d = staking.distribute_reward(total, &vec!["s".to_string()]);
    assert_eq!(d.sequencer_rewards[0].1, 200_000 * COIN);
    assert_eq!(d.treasury_amount, 100_000 * COIN);
    assert_eq!(d.validator_rewards[0].1.operator_reward, 350_000 * COIN + 35_000 * COIN);
    assert_eq!(paid_out(&d), total);
}

#[test]
fn block_reward_after_the_schedule_is_zero() {
    let mut staking = StakingRewards::new(BlockRewardConfig::default(), 0);
    staking.add_validator(validator("v", 1, vec![], 0));
    let mut emission = ionova_core::emission::EmissionSchedule::new(0);
    let d = staking.distribute_block_reward(&mut emission, 63_072_000 * 10, &vec![]);
    assert_eq!(d.total_reward, 0);
    assert_eq!(paid_out(&d), 0);
}
