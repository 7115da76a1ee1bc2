use ionova_core::config::{Config, ConfigError};
use ionova_core::transaction::COIN;

#[test]
fn test_default_config() {
    let config = Config::default();
    assert!(config.validate().is_ok());
    assert_eq!(config.network.chain_id, 31337);
    assert_eq!(config.gas.subsidy_rate, COIN / 2);
}

#[test]
fn test_invalid_subsidy_rate() {
    let mut config = Config::default();
    config.gas.subsidy_rate = COIN + COIN / 2;
    assert!(config.validate().is_err());
}

#[test]
fn zero_shards_and_zero_global_rate_are_refused() {
    let mut config = Config::default();
    config.network.shard_count = 0;
    assert_eq!(config.validate(), Err(ConfigError::NoShards));
    let mut config = Config::default();
    config.rate_limit.global_requests_per_second = 0;
    assert_eq!(config.validate(), Err(ConfigError::NoGlobalRate));
    assert_eq!(ConfigError::NoGlobalRate.message(), "Global rate limit must be > 0");
}

#[test]
fn subsidy_rate_of_exactly_one_is_accepted() {
    let mut config = Config::default();
    config.gas.subsidy_rate = COIN;
    assert!(config.validate().is_ok());
}
