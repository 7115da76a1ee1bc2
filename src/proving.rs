use vstd::prelude::*;

verus! {

/// Characteristics of one zero-knowledge proving system.
#[derive(Debug, Clone)]
pub struct SystemMetrics {
    pub name: String,
    pub setup: String,
    pub proof_size: usize,
    pub verify_time_ms: u64,
    pub flexibility: String,
}

/// A side-by-side table of proving systems.
#[derive(Debug, Clone)]
pub struct ComparisonTable {
    pub systems: Vec<SystemMetrics>,
}

/// The proving systems the node can use, compared.
pub struct ProvingSystemComparison;

impl ProvingSystemComparison {
    /// Groth16, PLONK and Halo2, in that order, with their setup, proof
    /// size in bytes, verification time and flexibility.
    pub fn compare() -> (r: ComparisonTable)
        ensures
            r.systems@.len() == 3,
            r.systems@[0].name@ == "Groth16"@,
            r.systems@[0].setup@ == "Trusted (per-circuit)"@,
            r.systems@[0].proof_size == 192,
            r.systems@[0].verify_time_ms == 2,
            r.systems@[1].name@ == "PLONK"@,
            r.systems@[1].setup@ == "Universal (one-time)"@,
            r.systems@[1].proof_size == 1024,
            r.systems@[1].verify_time_ms == 5,
            r.systems@[2].name@ == "Halo2"@,
            r.systems@[2].setup@ == "None (trustless)"@,
            r.systems@[2].proof_size == 2048,
            r.systems@[2].verify_time_ms == 10,
    {
        let mut systems: Vec<SystemMetrics> = Vec::new();
        systems.push(SystemMetrics {
            name: "Groth16".to_string(),
            setup: "Trusted (per-circuit)".to_string(),
            proof_size: 192,
            verify_time_ms: 2,
            flexibility: "Low".to_string(),
        });
        systems.push(SystemMetrics {
            name: "PLONK".to_string(),
            setup: "Universal (one-time)".to_string(),
            proof_size: 1024,
            verify_time_ms: 5,
            flexibility: "High".to_string(),
        });
        systems.push(SystemMetrics {
            name: "Halo2".to_string(),
            setup: "None (trustless)".to_string(),
            proof_size: 2048,
            verify_time_ms: 10,
            flexibility: "Very High".to_string(),
        });
        ComparisonTable { systems }
    }
}

} // verus!
