use crate::transaction::COIN;
use vstd::prelude::*;

verus! {

/// Network settings.
#[derive(Debug, Clone, Copy)]
pub struct NetworkConfig {
    pub chain_id: u64,
    pub rpc_port: u16,
    pub metrics_port: u16,
    pub shard_count: u8,
    pub max_block_size: u64,
}

/// Gas schedule. The subsidy rate is fixed-point with `COIN` standing for 1.
#[derive(Debug, Clone, Copy)]
pub struct GasConfig {
    pub base_transaction: u64,
    pub ecdsa_signature: u64,
    pub dilithium_signature: u64,
    pub sphincs_signature: u64,
    pub hybrid_signature: u64,
    pub data_per_byte: u64,
    pub subsidy_enabled: bool,
    pub subsidy_rate: u128,
}

/// Request rate limits of the RPC front end.
#[derive(Debug, Clone, Copy)]
pub struct RateLimitConfig {
    pub global_requests_per_second: u32,
    pub per_ip_requests_per_second: u32,
    pub max_tracked_ips: usize,
}

/// The node's whole configuration.
#[derive(Debug, Clone, Copy)]
pub struct Config {
    pub network: NetworkConfig,
    pub gas: GasConfig,
    pub rate_limit: RateLimitConfig,
}

/// Why a configuration is refused.
#[derive(Debug, Clone, Copy, PartialEq, Eq, Structural)]
pub enum ConfigError {
    NoShards,
    SubsidyRateOutOfRange,
    NoGlobalRate,
}

impl ConfigError {
    /// A human-readable description of the error.
    pub fn message(&self) -> (r: String)
        ensures
            r@ == (match *self {
                ConfigError::NoShards => "Shard count must be > 0"@,
                ConfigError::SubsidyRateOutOfRange => "Subsidy rate must be between 0.0 and 1.0"@,
                ConfigError::NoGlobalRate => "Global rate limit must be > 0"@,
            }),
    {
        match self {
            ConfigError::NoShards => "Shard count must be > 0".to_string(),
            ConfigError::SubsidyRateOutOfRange => "Subsidy rate must be between 0.0 and 1.0".to_string(),
            ConfigError::NoGlobalRate => "Global rate limit must be > 0".to_string(),
        }
    }
}

impl Config {
    /// Chain 31337 on ports 27000 (RPC) and 9100 (metrics) with 100 shards
    /// and ten-megabyte blocks; the gas schedule of the transaction model
    /// with a subsidy of one half; 100 requests per second overall, 10 per
    /// address, and 10 000 tracked addresses.
    pub fn new() -> (r: Self)
        ensures
            r.network.chain_id == 31337,
            r.network.shard_count == 100,
            r.gas.subsidy_enabled,
            r.gas.subsidy_rate == COIN / 2,
            r.rate_limit.global_requests_per_second == 100,
    {
        Config {
            network: NetworkConfig {
                chain_id: 31337,
                rpc_port: 27000,
                metrics_port: 9100,
                shard_count: 100,
                max_block_size: 10_000_000,
            },
            gas: GasConfig {
                base_transaction: 21_000,
                ecdsa_signature: 3_000,
                dilithium_signature: 50_000,
                sphincs_signature: 70_000,
                hybrid_signature: 28_000,
                data_per_byte: 16,
                subsidy_enabled: true,
                subsidy_rate: COIN / 2,
            },
            rate_limit: RateLimitConfig {
                global_requests_per_second: 100,
                per_ip_requests_per_second: 10,
                max_tracked_ips: 10_000,
            },
        }
    }

    /// Accepts a configuration with at least one shard, a subsidy rate in
    /// [0, 1] and a positive global rate limit.
    pub fn validate(&self) -> (r: Result<(), ConfigError>)
        ensures
            r == if self.network.shard_count == 0 {
                Err::<(), ConfigError>(ConfigError::NoShards)
            } else if self.gas.subsidy_rate > COIN {
                Err::<(), ConfigError>(ConfigError::SubsidyRateOutOfRange)
            } else if self.rate_limit.global_requests_per_second == 0 {
                Err::<(), ConfigError>(ConfigError::NoGlobalRate)
            } else {
                Ok(())
            },
    {
        if self.network.shard_count == 0 {
            return Err(ConfigError::NoShards);
        }
        if self.gas.subsidy_rate > COIN {
            return Err(ConfigError::SubsidyRateOutOfRange);
        }
        if self.rate_limit.global_requests_per_second == 0 {
            return Err(ConfigError::NoGlobalRate);
        }
        Ok(())
    }
}

impl Default for Config {
    fn default() -> (r: Self)
        ensures
            r.network.chain_id == 31337,
            r.gas.subsidy_rate == COIN / 2,
    {
        Config::new()
    }
}

} // verus!
