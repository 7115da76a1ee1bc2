use ionova_core::crypto::{Address, PublicKeyData, Signature};
use ionova_core::transaction::{Transaction, TransactionBuilder, TxError, COIN};
use sha2::Digest;

fn create_test_transaction(nonce: u64) -> Transaction {
    Transaction {
        nonce,
        from: Address::EVM([0; 20]),
        to: Address::EVM([1; 20]),
        value: 100 * COIN,
        gas_limit: 21_000,
        gas_price: 1_000_000_000_000,
        data: vec![],
        signature: Signature::ECDSA { r: [0; 32], s: [0; 32], v: 0 },
        public_key: PublicKeyData::ECDSA { bytes: [0; 33] },
        expiry: None,
    }
}

#[test]
fn test_gas_cost_ecdsa() {
    let tx = create_test_transaction(1);
    assert_eq!(tx.calculate_gas_cost().unwrap(), 24_000);
}

#[test]
fn test_gas_cost_dilithium_subsidized() {
    let mut tx = create_test_transaction(1);
    tx.gas_limit = 50_000;
    tx.signature = Signature::Dilithium { data: vec![0u8; 2420] };
    tx.public_key = PublicKeyData::Dilithium { bytes: vec![0u8; 2528] };
    assert_eq!(tx.calculate_gas_cost().unwrap(), 46_000);
}

#[test]
fn test_transaction_builder() {
    let from = Address::EVM([0u8; 20]);
    let to = Address::EVM([1u8; 20]);
    let tx = TransactionBuilder::new()
        .nonce(5)
        .from(from)
        .to(to)
        .value(50 * COIN)
        .unwrap()
        .gas_limit(25_000)
        .unwrap()
        .build(Signature::ECDSA { r: [0u8; 32], s: [0u8; 32], v: 0 }, PublicKeyData::ECDSA { bytes: [0u8; 33] })
        .unwrap();
    assert_eq!(tx.nonce, 5);
    assert_eq!(tx.value, 50 * COIN);
    assert_eq!(tx.gas_limit, 25_000);
}

#[test]
fn test_excessive_value_rejected() {
    let result = TransactionBuilder::new().value(10_000_000_001 * COIN);
    assert!(result.is_err());
    assert!(result.unwrap_err().message().contains("exceeds max supply"));
}

#[test]
fn test_gas_limit_too_low() {
    let result = TransactionBuilder::new().gas_limit(20_000);
    assert!(result.is_err());
}

#[test]
fn test_data_too_large() {
    let huge_data = vec![0u8; 2_000_000];
    let result = TransactionBuilder::new().data(huge_data);
    assert!(result.is_err());
    assert!(result.unwrap_err().message().contains("too large"));
}

#[test]
fn test_nonce_too_low() {
    let tx = create_test_transaction(5);
    let result = tx.validate_nonce(10);
    assert!(result.is_err());
    assert!(result.unwrap_err().message().contains("too low"));
}

#[test]
fn test_nonce_too_high() {
    let tx = create_test_transaction(15);
    let result = tx.validate_nonce(10);
    assert!(result.is_err());
    assert!(result.unwrap_err().message().contains("too high"));
}

#[test]
fn test_nonce_correct() {
    let tx = create_test_transaction(10);
    assert!(tx.validate_nonce(10).is_ok());
}

#[test]
fn test_transaction_expired() {
    let mut tx = create_test_transaction(1);
    tx.expiry = Some(1000);
    assert!(tx.is_expired(2000));
    assert!(!tx.is_expired(500));
}

#[test]
fn test_transaction_no_expiry() {
    let tx = create_test_transaction(1);
    assert!(!tx.is_expired(u64::MAX));
}

#[test]
fn data_of_one_megabyte_builds_and_one_byte_more_does_not() {
    assert!(TransactionBuilder::new().data(vec![0u8; 1_000_000]).is_ok());
    assert_eq!(TransactionBuilder::new().data(vec![0u8; 1_000_001]).unwrap_err(), TxError::DataTooLarge);
}

#[test]
fn gas_limit_above_ten_million_is_rejected() {
    assert_eq!(TransactionBuilder::new().gas_limit(10_000_001).unwrap_err(), TxError::GasLimitTooHigh);
    assert!(TransactionBuilder::new().gas_limit(10_000_000).is_ok());
}

#[test]
fn build_without_recipient_is_incomplete() {
    let result = TransactionBuilder::new()
        .from(Address::EVM([0; 20]))
        .build(Signature::ECDSA { r: [0; 32], s: [0; 32], v: 0 }, PublicKeyData::ECDSA { bytes: [0; 33] });
    assert_eq!(result.unwrap_err(), TxError::BuildIncomplete);
}

#[test]
fn builder_keeps_expiry() {
    let tx = TransactionBuilder::new()
        .from(Address::EVM([0; 20]))
        .to(Address::Native([1; 32]))
        .expiry(77)
        .build(Signature::ECDSA { r: [0; 32], s: [0; 32], v: 0 }, PublicKeyData::ECDSA { bytes: [0; 33] })
        .unwrap();
    assert_eq!(tx.expiry, Some(77));
}

#[test]
fn gas_cost_counts_sixteen_per_data_byte_and_post_quantum_subsidy() {
    let mut tx = create_test_transaction(1);
    tx.data = vec![0u8; 10];
    assert_eq!(tx.calculate_gas_cost().unwrap(), 21_000 + 3_000 + 160);
    tx.signature = Signature::SPHINCSPlus { data: vec![] };
    assert_eq!(tx.calculate_gas_cost().unwrap(), 21_000 + 35_000 + 160);
    tx.signature = Signature::Hybrid {
        ecdsa: Box::new(Signature::ECDSA { r: [0; 32], s: [0; 32], v: 0 }),
        pq: Box::new(Signature::Dilithium { data: vec![] }),
    };
    assert_eq!(tx.calculate_gas_cost().unwrap(), 21_000 + 28_000 + 160);
}

#[test]
fn fee_is_gas_cost_times_gas_price() {
    let tx = create_test_transaction(1);
    assert_eq!(tx.calculate_fee().unwrap(), 24_000 * 1_000_000_000_000);
}

#[test]
fn fee_overflow_is_reported() {
    let mut tx = create_test_transaction(1);
    tx.gas_price = u128::MAX / 2;
    assert_eq!(tx.calculate_fee(), Err(TxError::FeeOverflow));
}

#[test]
fn hash_ignores_signature_and_public_key() {
    let a = create_test_transaction(3);
    let mut b = create_test_transaction(3);
    b.signature = Signature::Dilithium { data: vec![9; 4595] };
    b.public_key = PublicKeyData::Dilithium { bytes: vec![9; 2528] };
    assert_eq!(a.hash(), b.hash());
}

#[test]
fn hash_depends_on_payload_and_nonce() {
    let a = create_test_transaction(3);
    let mut b = create_test_transaction(3);
    b.data = vec![1];
    assert_ne!(a.hash(), b.hash());
    assert_ne!(a.hash(), create_test_transaction(4).hash());
}

#[test]
fn hash_is_sha256_of_canonical_encoding() {
    let tx = create_test_transaction(1);
    let mut expected = Vec::new();
    expected.extend_from_slice(&1u64.to_le_bytes());
    expected.extend_from_slice(&(100 * COIN).to_le_bytes());
    expected.extend_from_slice(&21_000u64.to_le_bytes());
    expected.extend_from_slice(&1_000_000_000_000u128.to_le_bytes());
    assert_eq!(tx.canonical_encoding(), expected);
    let digest: [u8; 32] = sha2::Sha256::digest(&expected).into();
    assert_eq!(tx.hash(), digest);
}

#[test]
fn signature_over_hash_verifies() {
    let secp = secp256k1::Secp256k1::new();
    let sk = secp256k1::SecretKey::from_slice(&[3u8; 32]).unwrap();
    let pk = secp256k1::PublicKey::from_secret_key(&secp, &sk).serialize();
    let mut tx = create_test_transaction(1);
    tx.public_key = PublicKeyData::ECDSA { bytes: pk };
    let message = tx.hash();
    let digest: [u8; 32] = sha2::Sha256::digest(message).into();
    let compact = secp.sign_ecdsa(&secp256k1::Message::from_digest(digest), &sk).serialize_compact();
    let mut r = [0u8; 32];
    let mut s = [0u8; 32];
    r.copy_from_slice(&compact[..32]);
    s.copy_from_slice(&compact[32..]);
    tx.signature = Signature::ECDSA { r, s, v: 0 };
    assert_eq!(tx.verify_signature(), Ok(true));
    tx.nonce = 2;
    assert_eq!(tx.verify_signature(), Ok(false));
}
