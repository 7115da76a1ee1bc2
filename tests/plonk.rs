use ionova_core::proving::ProvingSystemComparison;

#[test]
fn test_comparison() {
    let table = ProvingSystemComparison::compare();
    assert_eq!(table.systems.len(), 3);
    let plonk = &table.systems[1];
    assert_eq!(plonk.name, "PLONK");
    assert!(plonk.setup.contains("Universal"));
}

#[test]
fn comparison_lists_proof_sizes() {
    let table = ProvingSystemComparison::compare();
    assert_eq!(table.systems[0].name, "Groth16");
    assert_eq!(table.systems[0].proof_size, 192);
    assert_eq!(table.systems[2].name, "Halo2");
    assert_eq!(table.systems[2].verify_time_ms, 10);
}
