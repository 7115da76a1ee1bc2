//! Transaction-processing core of a sharded chain node: multi-algorithm
//! signatures, transactions and gas, emission and fees, security checks,
//! the per-shard mempool and sequencer, and the three-phase finality vote.

pub mod clock;
pub mod digest;
pub mod crypto;
pub mod transaction;
pub mod emission;
pub mod fee_model;
pub mod table;
pub mod genesis;
pub mod quantum_hash;
pub mod finality;
pub mod security;
pub mod mempool;
pub mod sequencer;
pub mod staking;
pub mod ai_gas;
pub mod proving;
pub mod config;
pub mod rpc;
pub mod block_propagation;
pub mod network_security;
