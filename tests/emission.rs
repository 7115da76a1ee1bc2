use ionova_core::emission::{EmissionSchedule, GenesisAllocation, RATE_SCALE};
use ionova_core::transaction::COIN;

const REWARD: u128 = 79_350_000_000_000_000_000;
const INTERVAL: u64 = 63_072_000;

#[test]
fn test_emission_schedule() {
    let emission = EmissionSchedule::default();
    assert_eq!(emission.max_supply, 10_000_000_000 * COIN);
    assert_eq!(emission.genesis_allocation, 2_100_000 * COIN);
    assert_eq!(emission.initial_block_reward, REWARD);
    assert_eq!(emission.total_halvings, 10);
}

#[test]
fn emission_test_block_reward_halving() {
    let emission = EmissionSchedule::new(0);
    assert_eq!(emission.calculate_block_reward(0), REWARD);
    assert_eq!(emission.calculate_block_reward(1_000_000), REWARD);
    assert_eq!(emission.calculate_block_reward(INTERVAL), 39_675_000_000_000_000_000);
    assert_eq!(emission.calculate_block_reward(INTERVAL * 2), 19_837_500_000_000_000_000);
    assert_eq!(emission.calculate_block_reward(INTERVAL * 3), 9_918_750_000_000_000_000);
}

#[test]
fn test_epoch_calculation() {
    let emission = EmissionSchedule::new(0);
    assert_eq!(emission.current_epoch(0), 0);
    assert_eq!(emission.current_epoch(INTERVAL), 1);
    assert_eq!(emission.current_epoch(INTERVAL * 2), 2);
    assert_eq!(emission.current_epoch(INTERVAL * 9), 9);
    assert_eq!(emission.current_epoch(INTERVAL * 15), 10);
}

#[test]
fn test_epoch_total_emission() {
    let emission = EmissionSchedule::new(0);
    let epoch0 = emission.epoch_total_emission(0);
    assert_eq!(epoch0, REWARD * INTERVAL as u128);
    let epoch1 = emission.epoch_total_emission(1);
    assert_eq!(epoch1, 39_675_000_000_000_000_000 * INTERVAL as u128);
    assert_eq!(epoch1, epoch0 / 2);
}

#[test]
fn test_total_minted_calculation() {
    let emission = EmissionSchedule::new(0);
    assert_eq!(emission.total_minted_at_height(INTERVAL), REWARD * INTERVAL as u128);
    let expected = (REWARD + REWARD / 2) * INTERVAL as u128;
    assert_eq!(emission.total_minted_at_height(INTERVAL * 2), expected);
}

#[test]
fn test_mint_and_burn() {
    let mut emission = EmissionSchedule::new(0);
    assert_eq!(emission.circulating_supply, 2_100_000 * COIN);
    let reward = emission.mint_block_reward(0);
    assert_eq!(reward, REWARD);
    assert_eq!(emission.circulating_supply, 2_100_000 * COIN + REWARD);
    assert_eq!(emission.total_minted, REWARD);
    emission.burn(10 * COIN);
    assert_eq!(emission.circulating_supply, 2_100_000 * COIN + REWARD - 10 * COIN);
    assert_eq!(emission.total_burned, 10 * COIN);
}

#[test]
fn test_max_supply_cap() {
    let mut emission = EmissionSchedule::new(0);
    emission.circulating_supply = 9_999_999_950 * COIN;
    let reward = emission.mint_block_reward(0);
    assert_eq!(reward, 50 * COIN);
    assert_eq!(emission.circulating_supply, 10_000_000_000 * COIN);
    assert!(emission.is_emission_complete());
}

#[test]
fn test_inflation_rate() {
    let mut emission = EmissionSchedule::new(0);
    emission.circulating_supply = 1_000_000_000 * COIN;
    let inflation = emission.current_inflation_rate(0);
    assert!(inflation > 250 * RATE_SCALE && inflation < 251 * RATE_SCALE);
}

#[test]
fn test_genesis_allocation() {
    let genesis = GenesisAllocation::default();
    assert_eq!(genesis.node_operators, 2_000_000 * COIN);
    assert_eq!(genesis.reserved, 100_000 * COIN);
    assert_eq!(genesis.total(), 2_100_000 * COIN);
}

#[test]
fn reward_at_first_halving_is_39_675() {
    let emission = EmissionSchedule::new(0);
    assert_eq!(emission.calculate_block_reward(63_072_000), 39_675_000_000_000_000_000);
}

#[test]
fn reward_is_zero_after_the_schedule() {
    let emission = EmissionSchedule::new(0);
    assert_eq!(emission.calculate_block_reward(INTERVAL * 10), 0);
    assert_eq!(emission.calculate_block_reward(INTERVAL * 10 - 1), REWARD / 512);
    assert_eq!(emission.epoch_total_emission(10), 0);
}

#[test]
fn reward_before_genesis_height_is_the_initial_one() {
    let emission = EmissionSchedule::new(1_000);
    assert_eq!(emission.calculate_block_reward(5), REWARD);
    assert_eq!(emission.current_epoch(5), 0);
}

#[test]
fn minted_and_burned_totals_add_up_and_supply_stays_capped() {
    let mut emission = EmissionSchedule::new(0);
    emission.circulating_supply = emission.max_supply - 100 * COIN;
    let mut minted = 0u128;
    for h in [0u64, 1, 2] {
        minted += emission.mint_block_reward(h);
        assert!(emission.circulating_supply <= emission.max_supply);
    }
    assert_eq!(minted, 100 * COIN);
    assert_eq!(emission.total_minted, minted);
    assert_eq!(emission.remaining_supply(), 0);
    emission.burn(3 * COIN);
    emission.burn(4 * COIN);
    assert_eq!(emission.total_burned, 7 * COIN);
    assert_eq!(emission.remaining_supply(), 7 * COIN);
}

#[test]
fn burning_more_than_circulates_empties_the_supply() {
    let mut emission = EmissionSchedule::new(0);
    emission.burn(emission.circulating_supply + 1);
    assert_eq!(emission.circulating_supply, 0);
    assert_eq!(emission.current_inflation_rate(0), 0);
}

#[test]
fn stats_report_the_schedule() {
    let emission = EmissionSchedule::new(0);
    let stats = emission.get_stats(INTERVAL);
    assert_eq!(stats.current_epoch, 1);
    assert_eq!(stats.current_block_reward, REWARD / 2);
    assert_eq!(stats.remaining_supply, 10_000_000_000 * COIN - 2_100_000 * COIN);
    assert!(!stats.emission_complete);
}
