use ionova_core::fee_model::{adjust_base_fee, DynamicFeeScaler, FeeConfig, TransactionFee, FEE_FLOOR};
use ionova_core::transaction::COIN;

const MICRO: u128 = 1_000_000_000_000;

#[test]
fn test_fee_calculation() {
    let config = FeeConfig::default();
    let fee = TransactionFee::calculate(&config, 5000, 0);
    assert_eq!(fee.total, 5_100_000_000_000_000);
}

#[test]
fn test_fee_adjustment_over_target() {
    let current = MICRO;
    let new_fee = adjust_base_fee(current, 25_000_000, 20_000_000, 125_000_000_000_000_000);
    assert!(new_fee > current);
}

#[test]
fn test_fee_adjustment_under_target() {
    let current = MICRO;
    let new_fee = adjust_base_fee(current, 15_000_000, 20_000_000, 125_000_000_000_000_000);
    assert!(new_fee <= current);
    assert!(new_fee >= MICRO);
}

#[test]
fn test_scale_factor_at_100k() {
    let mut scaler = DynamicFeeScaler::default();
    let scale = scaler.calculate_scale_factor(Some(100_000 * COIN));
    assert_eq!(scale, 10_000_000_000_000);
}

#[test]
fn test_adjusted_fee_at_100k() {
    let mut scaler = DynamicFeeScaler::default();
    let adjusted_base = scaler.get_adjusted_base_tx_fee(100_000_000_000_000, Some(100_000 * COIN));
    assert_eq!(adjusted_base, 1_000_000_000);
    let adjusted_gas = scaler.get_adjusted_base_fee_per_gas(MICRO, Some(100_000 * COIN));
    assert_eq!(adjusted_gas, 10_000_000);
}

#[test]
fn test_oracle_failure_fallback() {
    let mut scaler = DynamicFeeScaler::default();
    let scale1 = scaler.calculate_scale_factor(Some(100 * COIN));
    assert_eq!(scale1, COIN / 100);
    let scale2 = scaler.calculate_scale_factor(None);
    assert_eq!(scale2, COIN / 100);
}

#[test]
fn fee_parts_are_reported() {
    let fee = TransactionFee::calculate(&FeeConfig::default(), 5000, 7);
    assert_eq!(fee.base_fee, 100_000_000_000_000);
    assert_eq!(fee.gas_fee, 5_000_000_000_000_000);
    assert_eq!(fee.tip, 7);
    assert_eq!(fee.total, 5_100_000_000_000_007);
}

#[test]
fn adjustment_steps_by_an_eighth() {
    let f = 8 * MICRO;
    let factor = COIN / 8;
    assert_eq!(adjust_base_fee(f, 11, 10, factor), 9 * MICRO);
    assert_eq!(adjust_base_fee(f, 9, 10, factor), 7 * MICRO);
    assert_eq!(adjust_base_fee(f, 10, 10, factor), f);
}

#[test]
fn adjustment_never_goes_under_the_floor() {
    assert_eq!(adjust_base_fee(FEE_FLOOR, 1, 10, COIN / 8), FEE_FLOOR);
    assert_eq!(adjust_base_fee(5 * MICRO, 1, 10, COIN), FEE_FLOOR);
}

#[test]
fn scale_is_clamped_to_its_bounds() {
    let mut scaler = DynamicFeeScaler::default();
    assert_eq!(scaler.calculate_scale_factor(Some(COIN / 1000)), 100 * COIN);
    assert_eq!(scaler.calculate_scale_factor(Some(10_000_000 * COIN)), 10_000_000_000_000);
    assert_eq!(scaler.calculate_scale_factor(Some(0)), 100 * COIN);
    assert_eq!(scaler.last_known_price, 0);
}

#[test]
fn smallest_fees_still_move() {
    assert_eq!(adjust_base_fee(1, 2, 1, COIN / 8), 2);
    assert_eq!(adjust_base_fee(FEE_FLOOR + 1, 1, 2, 1), FEE_FLOOR);
    assert_eq!(adjust_base_fee(10 * FEE_FLOOR + 5, 1, 2, COIN / 8), 10 * FEE_FLOOR + 5 - (10 * FEE_FLOOR + 5 + 7) / 8);
}
