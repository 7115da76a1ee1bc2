use ionova_core::ai_gas::AIGasPricing;

#[test]
fn nn_gas_counts_layers_and_neurons() {
    assert_eq!(AIGasPricing::calculate_nn_gas(&[10, 20]), 100_000 + 2 * 50_000 + 30 * 1_000);
    assert_eq!(AIGasPricing::calculate_nn_gas(&[]), 100_000);
}

#[test]
fn storage_gas_is_per_kilobyte() {
    assert_eq!(AIGasPricing::calculate_storage_gas(3), 15_000);
}
