use crate::transaction::COIN;
use vstd::prelude::*;

verus! {

/// Lowest per-gas base fee the dynamic adjustment yields: 10^-6 coin.
pub const FEE_FLOOR: u128 = 1_000_000_000_000;

/// Fee parameters. Amounts are base units (10^-18 coin); ratios are
/// fixed-point with `COIN` standing for 1.
#[derive(Debug, Clone, Copy)]
pub struct FeeConfig {
    /// Fixed fee per transaction.
    pub base_tx_fee: u128,
    /// Fee per unit of gas.
    pub base_fee_per_gas: u128,
    /// Target gas utilization.
    pub target_utilization: u128,
    /// Relative step of the dynamic adjustment.
    pub adjustment_factor: u128,
}

/// A transaction fee, part by part.
#[derive(Debug, Clone, Copy)]
pub struct TransactionFee {
    pub base_fee: u128,
    pub gas_fee: u128,
    pub tip: u128,
    pub total: u128,
}

impl FeeConfig {
    /// Base fee 0.0001, per-gas fee 0.000001, target utilization 0.8 and
    /// adjustment factor 0.125.
    pub fn new() -> (r: Self)
        ensures
            r.base_tx_fee == 100_000_000_000_000,
            r.base_fee_per_gas == 1_000_000_000_000,
            r.target_utilization == 800_000_000_000_000_000,
            r.adjustment_factor == 125_000_000_000_000_000,
    {
        FeeConfig {
            base_tx_fee: 100_000_000_000_000,
            base_fee_per_gas: 1_000_000_000_000,
            target_utilization: 800_000_000_000_000_000,
            adjustment_factor: 125_000_000_000_000_000,
        }
    }
}

impl Default for FeeConfig {
    fn default() -> (r: Self)
        ensures
            r.base_tx_fee == 100_000_000_000_000,
            r.base_fee_per_gas == 1_000_000_000_000,
            r.target_utilization == 800_000_000_000_000_000,
            r.adjustment_factor == 125_000_000_000_000_000,
    {
        FeeConfig::new()
    }
}

/// Total static fee: base fee, per-gas fee times gas used, and tip.
pub open spec fn static_fee(config: FeeConfig, gas_used: u64, tip: u128) -> int {
    config.base_tx_fee + config.base_fee_per_gas * gas_used + tip
}

impl TransactionFee {
    /// The fee of a transaction that used `gas_used` gas and offers `tip`.
    pub fn calculate(config: &FeeConfig, gas_used: u64, tip: u128) -> (r: Self)
        requires
            static_fee(*config, gas_used, tip) <= u128::MAX,
        ensures
            r.base_fee == config.base_tx_fee,
            r.gas_fee == config.base_fee_per_gas * gas_used,
            r.tip == tip,
            r.total == static_fee(*config, gas_used, tip),
    {
        proof {
            assert(config.base_fee_per_gas * gas_used >= 0) by (nonlinear_arith);
        }
        let gas_fee = config.base_fee_per_gas * gas_used as u128;
        TransactionFee {
            base_fee: config.base_tx_fee,
            gas_fee,
            tip,
            total: config.base_tx_fee + gas_fee + tip,
        }
    }
}

/// One step of the dynamic adjustment: the fee times the factor, rounded
/// up, so that any positive fee and factor move the fee.
pub open spec fn fee_step(current: u128, factor: u128) -> int {
    (current * factor + COIN - 1) / (COIN as int)
}

/// The base fee after a block that used `gas_used` of `gas_target`: up by
/// one step above target, down by one step (not below the floor) under
/// target, unchanged on target.
pub open spec fn adjusted_fee(current: u128, gas_used: u64, gas_target: u64, factor: u128) -> int {
    if gas_used > gas_target {
        current + fee_step(current, factor)
    } else if gas_used < gas_target {
        let lowered = current - fee_step(current, factor);
        if lowered > FEE_FLOOR {
            lowered
        } else {
            FEE_FLOOR as int
        }
    } else {
        current as int
    }
}

/// The next block's base fee per gas; see `adjusted_fee`.
pub fn adjust_base_fee(current_base_fee: u128, gas_used: u64, gas_target: u64, adjustment_factor: u128) -> (r: u128)
    requires
        gas_target > 0,
        current_base_fee * adjustment_factor + COIN <= u128::MAX,
        current_base_fee + fee_step(current_base_fee, adjustment_factor) <= u128::MAX,
    ensures
        r == adjusted_fee(current_base_fee, gas_used, gas_target, adjustment_factor),
        gas_used > gas_target && adjustment_factor > 0 && current_base_fee > 0 ==> r > current_base_fee,
        gas_used < gas_target && adjustment_factor > 0 && current_base_fee > FEE_FLOOR ==> r < current_base_fee,
        gas_used < gas_target ==> r >= FEE_FLOOR,
        gas_used == gas_target ==> r == current_base_fee,
{
    proof {
        lemma_fee_adjustment_monotone(current_base_fee, gas_used, gas_target, adjustment_factor);
    }
    let step = (current_base_fee * adjustment_factor + (COIN - 1)) / COIN;
    if gas_used > gas_target {
        current_base_fee + step
    } else if gas_used < gas_target {
        if step >= current_base_fee {
            return FEE_FLOOR;
        }
        let lowered = current_base_fee - step;
        if lowered > FEE_FLOOR {
            lowered
        } else {
            FEE_FLOOR
        }
    } else {
        current_base_fee
    }
}

/// The dynamic adjustment is monotone in utilization: above target a
/// positive fee rises, below target a fee over the floor falls, below
/// target the result is never under the floor, and it is never under the
/// floor when the fee was not. This holds for every positive factor, since a
/// step is rounded up to at least one base unit.
pub proof fn lemma_fee_adjustment_monotone(
    current: u128,
    gas_used: u64,
    gas_target: u64,
    factor: u128,
)
    ensures
        gas_used > gas_target && factor > 0 && current > 0 ==> adjusted_fee(current, gas_used, gas_target, factor) > current,
        gas_used < gas_target && factor > 0 && current > FEE_FLOOR ==> adjusted_fee(
            current,
            gas_used,
            gas_target,
            factor,
        ) < current,
        gas_used < gas_target ==> adjusted_fee(current, gas_used, gas_target, factor) >= FEE_FLOOR,
        current >= FEE_FLOOR ==> adjusted_fee(current, gas_used, gas_target, factor) >= FEE_FLOOR,
        gas_used == gas_target ==> adjusted_fee(current, gas_used, gas_target, factor) == current,
{
    if factor > 0 && current > 0 {
        assert(current * factor >= 1) by (nonlinear_arith)
            requires
                current >= 1,
                factor >= 1,
        ;
        assert(fee_step(current, factor) >= 1) by (nonlinear_arith)
            requires
                current * factor >= 1,
                COIN > 0,
        ;
    }
    assert(current * factor >= 0) by (nonlinear_arith);
    assert(fee_step(current, factor) >= 0) by (nonlinear_arith)
        requires current * factor >= 0, COIN > 0;
}

/// Scales fees with the coin's price so that their value in dollars stays
/// put. Prices and scale factors are fixed-point with `COIN` standing for 1.
#[derive(Debug, Clone, Copy)]
pub struct DynamicFeeScaler {
    pub target_fee_usd: u128,
    pub base_ionx_price: u128,
    pub min_scale_factor: u128,
    pub max_scale_factor: u128,
    pub last_known_price: u128,
}

/// The scale factor at `price`: base price over price, clamped to the
/// bounds; the upper bound where the price is zero.
pub open spec fn scale_at(s: DynamicFeeScaler, price: u128) -> int {
    if price == 0 {
        s.max_scale_factor as int
    } else {
        let raw = s.base_ionx_price * COIN / (price as int);
        if raw < s.min_scale_factor {
            if s.min_scale_factor < s.max_scale_factor { s.min_scale_factor as int } else { s.max_scale_factor as int }
        } else if raw > s.max_scale_factor {
            s.max_scale_factor as int
        } else {
            raw
        }
    }
}

/// The price in force after a reading: the reading where the oracle was
/// healthy, else the last known price.
pub open spec fn price_after(s: DynamicFeeScaler, reading: Option<u128>) -> u128 {
    match reading {
        Some(p) => p,
        None => s.last_known_price,
    }
}

impl DynamicFeeScaler {
    /// A target of $0.005 at a base price of $1, scale bounds 0.00001 and
    /// 100, and a last known price of $1.
    pub fn new() -> (r: Self)
        ensures
            r.target_fee_usd == 5_000_000_000_000_000,
            r.base_ionx_price == COIN,
            r.min_scale_factor == 10_000_000_000_000,
            r.max_scale_factor == 100 * COIN,
            r.last_known_price == COIN,
    {
        DynamicFeeScaler {
            target_fee_usd: 5_000_000_000_000_000,
            base_ionx_price: COIN,
            min_scale_factor: 10_000_000_000_000,
            max_scale_factor: 100 * COIN,
            last_known_price: COIN,
        }
    }

    /// The scale factor for the oracle's `reading`: `Some(price)` from a
    /// healthy oracle, which becomes the last known price, or `None` from a
    /// failed one, in which case the last known price is used.
    pub fn calculate_scale_factor(&mut self, reading: Option<u128>) -> (r: u128)
        requires
            old(self).base_ionx_price * COIN <= u128::MAX,
        ensures
            final(self).last_known_price == price_after(*old(self), reading),
            *final(self) == (DynamicFeeScaler { last_known_price: final(self).last_known_price, ..*old(self) }),
            r == scale_at(*old(self), price_after(*old(self), reading)),
    {
        let price = match reading {
            Some(p) => {
                self.last_known_price = p;
                p
            },
            None => self.last_known_price,
        };
        if price == 0 {
            return self.max_scale_factor;
        }
        let raw = self.base_ionx_price * COIN / price;
        if raw < self.min_scale_factor {
            if self.min_scale_factor < self.max_scale_factor {
                self.min_scale_factor
            } else {
                self.max_scale_factor
            }
        } else if raw > self.max_scale_factor {
            self.max_scale_factor
        } else {
            raw
        }
    }

    /// `base_value` scaled by the factor for `reading`, rounded down.
    pub fn get_adjusted_base_tx_fee(&mut self, base_value: u128, reading: Option<u128>) -> (r: u128)
        requires
            old(self).base_ionx_price * COIN <= u128::MAX,
            base_value * old(self).max_scale_factor <= u128::MAX,
        ensures
            *final(self) == (DynamicFeeScaler { last_known_price: price_after(*old(self), reading), ..*old(self) }),
            r == base_value * scale_at(*old(self), price_after(*old(self), reading)) / (COIN as int),
    {
        let scale = self.calculate_scale_factor(reading);
        let max_scale = self.max_scale_factor;
        proof {
            assert(base_value * scale <= base_value * max_scale) by (nonlinear_arith)
                requires
                    scale <= max_scale,
            ;
        }
        base_value * scale / COIN
    }

    /// `base_value` scaled by the factor for `reading`, rounded down.
    pub fn get_adjusted_base_fee_per_gas(&mut self, base_value: u128, reading: Option<u128>) -> (r: u128)
        requires
            old(self).base_ionx_price * COIN <= u128::MAX,
            base_value * old(self).max_scale_factor <= u128::MAX,
        ensures
            *final(self) == (DynamicFeeScaler { last_known_price: price_after(*old(self), reading), ..*old(self) }),
            r == base_value * scale_at(*old(self), price_after(*old(self), reading)) / (COIN as int),
    {
        self.get_adjusted_base_tx_fee(base_value, reading)
    }
}

impl Default for DynamicFeeScaler {
    fn default() -> (r: Self)
        ensures
            r.base_ionx_price == COIN,
            r.max_scale_factor == 100 * COIN,
            r.last_known_price == COIN,
    {
        DynamicFeeScaler::new()
    }
}

} // verus!
