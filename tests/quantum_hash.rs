use ionova_core::quantum_hash::{BenchmarkResults, HashAlgorithm, QuantumHash};
use sha3::Digest;

#[test]
fn test_sha3_hashing() {
    let data = b"Hello, Ionova!";
    let hash = ionova_core::quantum_hash::Hash::new(data, HashAlgorithm::SHA3_256);
    assert_eq!(hash.size(), 32);
    assert!(hash.verify(data));
    assert!(!hash.verify(b"Different data"));
}

#[test]
fn test_blake3_hashing() {
    let data = b"Quantum-safe blockchain";
    let hash = ionova_core::quantum_hash::Hash::new(data, HashAlgorithm::BLAKE3);
    assert_eq!(hash.size(), 32);
    assert!(hash.verify(data));
}

#[test]
fn test_merkle_root() {
    let leaves = vec![b"tx1".to_vec(), b"tx2".to_vec(), b"tx3".to_vec()];
    let root = QuantumHash::merkle_root(&leaves);
    assert_eq!(root.algorithm, HashAlgorithm::BLAKE3);
    assert_eq!(root.size(), 32);
}

#[test]
fn test_benchmark() {
    let data = vec![0u8; 1024];
    let results = QuantumHash::benchmark_algorithms(&data);
    assert_eq!(results.fastest(), HashAlgorithm::BLAKE3);
}

#[test]
fn digests_match_the_reference_implementations() {
    let data = b"abc";
    let sha3: [u8; 32] = sha3::Sha3_256::digest(data).into();
    assert_eq!(QuantumHash::hash_transaction(data).bytes, sha3.to_vec());
    let sha3_512 = sha3::Sha3_512::digest(data).to_vec();
    let block = QuantumHash::hash_block(data);
    assert_eq!(block.bytes, sha3_512);
    assert_eq!(block.size(), 64);
    assert_eq!(ionova_core::quantum_hash::Hash::new(data, HashAlgorithm::BLAKE3).bytes, blake3::hash(data).as_bytes().to_vec());
    let sha256: [u8; 32] = sha2::Sha256::digest(data).into();
    assert_eq!(ionova_core::quantum_hash::Hash::new(data, HashAlgorithm::SHA256).bytes, sha256.to_vec());
}

#[test]
fn hex_is_lowercase_two_digits_per_byte() {
    let h = ionova_core::quantum_hash::Hash { algorithm: HashAlgorithm::SHA256, bytes: vec![0x00, 0xab, 0x1f] };
    assert_eq!(h.to_hex(), "00ab1f");
}

#[test]
fn merkle_root_of_three_leaves_pairs_then_rehashes_the_odd_one() {
    let leaves = vec![b"tx1".to_vec(), b"tx2".to_vec(), b"tx3".to_vec()];
    let h = |b: &[u8]| blake3::hash(b).as_bytes().to_vec();
    let (a, b, c) = (h(b"tx1"), h(b"tx2"), h(b"tx3"));
    let left = h(&[a, b].concat());
    let right = h(&c);
    let expected = h(&[left, right].concat());
    assert_eq!(QuantumHash::merkle_root(&leaves).bytes, expected);
}

#[test]
fn merkle_root_of_nothing_and_of_one_leaf() {
    assert_eq!(QuantumHash::merkle_root(&[]).bytes, blake3::hash(&[]).as_bytes().to_vec());
    let one = vec![b"only".to_vec()];
    assert_eq!(QuantumHash::merkle_root(&one).bytes, blake3::hash(b"only").as_bytes().to_vec());
}

#[test]
fn fastest_picks_first_minimum_and_defaults_to_blake3() {
    let empty = BenchmarkResults { results: vec![] };
    assert_eq!(empty.fastest(), HashAlgorithm::BLAKE3);
    let r = BenchmarkResults {
        results: vec![(HashAlgorithm::SHA256, 9), (HashAlgorithm::SHA3_256, 4), (HashAlgorithm::SHA3_512, 4)],
    };
    assert_eq!(r.fastest(), HashAlgorithm::SHA3_256);
}

#[test]
fn default_algorithm_is_sha3_256() {
    assert_eq!(QuantumHash::default_algorithm(), HashAlgorithm::SHA3_256);
}
