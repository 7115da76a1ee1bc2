use ionova_core::security::{Block, SecurityConfig, SecurityError, SecurityValidator, Transaction};
use sha2::Digest;

fn sample_tx() -> Transaction {
    Transaction {
        hash: "0x123".to_string(),
        from: "0xabc".to_string(),
        to: "0xdef".to_string(),
        value: 1000,
        nonce: 1,
        gas_price: 1_000_000,
        gas_limit: 21000,
        signature: vec![0u8; 65],
        data: vec![],
    }
}

fn hashed(validator: &SecurityValidator, tx: &Transaction) -> Transaction {
    let mut t = tx.clone();
    t.hash = validator.calculate_tx_hash(tx);
    t
}

#[test]
fn security_test_rate_limiting() {
    let mut config = SecurityConfig::default();
    config.rate_limit_tx_per_sec = 2;
    let mut validator = SecurityValidator::new(config);
    assert!(validator.check_rate_limit("0xabc").is_ok());
    assert!(validator.check_rate_limit("0xabc").is_ok());
    let result = validator.check_rate_limit("0xabc");
    assert!(result.is_err());
}

#[test]
fn test_validate_transaction() {
    let mut validator = SecurityValidator::new(SecurityConfig::default());
    let tx = hashed(&validator, &sample_tx());
    assert!(validator.validate_transaction(&tx).is_ok());
}

#[test]
fn test_replay_attack_prevention() {
    let mut validator = SecurityValidator::new(SecurityConfig::default());
    let tx = hashed(&validator, &sample_tx());
    assert!(validator.validate_transaction(&tx).is_ok());
    let result = validator.validate_transaction(&tx);
    assert!(result.is_err());
    assert_eq!(result, Err(SecurityError::ReplayAttack));
}

#[test]
fn test_nonce_validation() {
    let mut validator = SecurityValidator::new(SecurityConfig::default());
    let mut tx = sample_tx();
    assert!(validator.validate_nonce(&tx).is_ok());
    // The same nonce again lies within [last, last + gap] and is accepted.
    assert!(validator.validate_nonce(&tx).is_ok());
    tx.nonce = 2;
    assert!(validator.validate_nonce(&tx).is_ok());
    tx.nonce = 1;
    assert_eq!(validator.validate_nonce(&tx), Err(SecurityError::NonceTooLow));
}

#[test]
fn test_gas_validation() {
    let validator = SecurityValidator::new(SecurityConfig::default());
    let mut tx = sample_tx();
    assert!(validator.validate_gas(&tx).is_ok());
    tx.gas_price = 100;
    assert!(validator.validate_gas(&tx).is_err());
    tx.gas_price = 1_000_000;
    tx.gas_limit = 100_000_000;
    assert!(validator.validate_gas(&tx).is_err());
}

#[test]
fn second_identical_transaction_is_a_replay() {
    let mut validator = SecurityValidator::new(SecurityConfig::default());
    let tx = hashed(&validator, &sample_tx());
    assert_eq!(validator.validate_transaction_at(&tx, 1_000), Ok(()));
    assert_eq!(validator.validate_transaction_at(&tx, 1_001), Err(SecurityError::ReplayAttack));
}

#[test]
fn replay_cache_forgets_after_an_hour() {
    let mut validator = SecurityValidator::new(SecurityConfig::default());
    let tx = hashed(&validator, &sample_tx());
    assert_eq!(validator.check_replay_attack_at(&tx, 1_000), Ok(()));
    validator.cleanup_at(1_000 + 3_599);
    assert_eq!(validator.tx_hash_tracker.len(), 1);
    validator.cleanup_at(1_000 + 3_600);
    assert_eq!(validator.tx_hash_tracker.len(), 0);
    assert_eq!(validator.check_replay_attack_at(&tx, 5_000), Ok(()));
}

#[test]
fn nonce_gap_over_the_limit_is_rejected() {
    let mut validator = SecurityValidator::new(SecurityConfig::default());
    let mut tx = sample_tx();
    tx.nonce = 100;
    assert_eq!(validator.validate_nonce(&tx), Ok(()));
    tx.nonce = 201;
    assert_eq!(validator.validate_nonce(&tx), Err(SecurityError::NonceGap));
    tx.nonce = 200;
    assert_eq!(validator.validate_nonce(&tx), Ok(()));
}

#[test]
fn signature_envelope_must_be_65_bytes() {
    let mut validator = SecurityValidator::new(SecurityConfig::default());
    let mut tx = sample_tx();
    tx.signature = vec![];
    assert_eq!(validator.validate_transaction_at(&tx, 1), Err(SecurityError::InvalidSignature));
    tx.signature = vec![0; 64];
    assert_eq!(validator.validate_signature(&tx), Err(SecurityError::InvalidSignature));
}

#[test]
fn declared_hash_must_match() {
    let mut validator = SecurityValidator::new(SecurityConfig::default());
    let tx = sample_tx();
    assert_eq!(validator.validate_transaction_at(&tx, 1), Err(SecurityError::InvalidHash));
}

#[test]
fn tx_hash_is_hex_sha256_of_the_fields() {
    let validator = SecurityValidator::new(SecurityConfig::default());
    let tx = sample_tx();
    let input = format!("{}{}{}{}{}{}", tx.from, tx.to, tx.value, tx.nonce, tx.gas_price, tx.gas_limit);
    let expected = hex::encode(sha2::Sha256::digest(input.as_bytes()));
    assert_eq!(validator.calculate_tx_hash(&tx), expected);
}

#[test]
fn rate_window_resets_after_a_second() {
    let mut config = SecurityConfig::default();
    config.rate_limit_tx_per_sec = 1;
    let mut validator = SecurityValidator::new(config);
    assert_eq!(validator.check_rate_limit_at("a", 10), Ok(()));
    assert_eq!(validator.check_rate_limit_at("a", 10), Err(SecurityError::RateLimitExceeded));
    assert_eq!(validator.check_rate_limit_at("b", 10), Ok(()));
    assert_eq!(validator.check_rate_limit_at("a", 11), Ok(()));
    validator.cleanup_at(21);
    assert_eq!(validator.rate_limiter.len(), 0);
}

#[test]
fn blocks_are_checked_for_size_count_and_hash() {
    let mut config = SecurityConfig::default();
    config.max_tx_per_block = 1;
    let validator = SecurityValidator::new(config);
    let t = hashed(&validator, &sample_tx());
    let mut block = Block {
        height: 7,
        hash: String::new(),
        previous_hash: "0xprev".to_string(),
        timestamp: 99,
        transactions: vec![t.clone()],
    };
    block.hash = validator.calculate_block_hash(&block);
    assert_eq!(validator.validate_block(&block), Ok(()));
    let input = format!("{}{}{}{}", 7, "0xprev", 99, t.hash);
    assert_eq!(block.hash, hex::encode(sha2::Sha256::digest(input.as_bytes())));
    let mut tampered = block.clone();
    tampered.timestamp = 100;
    assert_eq!(validator.validate_block(&tampered), Err(SecurityError::InvalidBlockHash));
    let mut two = block.clone();
    two.transactions.push(t.clone());
    assert_eq!(validator.validate_block(&two), Err(SecurityError::TooManyTransactions));
    let mut small = SecurityConfig::default();
    small.max_block_size = 1_100;
    assert_eq!(SecurityValidator::new(small).validate_block(&block), Err(SecurityError::BlockTooLarge));
}

#[test]
fn rejected_transaction_leaves_no_trace() {
    let mut config = SecurityConfig::default();
    config.rate_limit_tx_per_sec = 1;
    let mut validator = SecurityValidator::new(config);
    let first = hashed(&validator, &sample_tx());
    assert_eq!(validator.validate_transaction_at(&first, 10), Ok(()));
    let mut second = sample_tx();
    second.nonce = 2;
    let second = hashed(&validator, &second);
    assert_eq!(validator.validate_transaction_at(&second, 10), Err(SecurityError::RateLimitExceeded));
    assert_eq!(validator.tx_hash_tracker.len(), 1);
    assert_eq!(*validator.nonce_tracker.get("0xabc").unwrap(), 1);
    // After the cool-down the same transaction is accepted, not taken for a replay.
    assert_eq!(validator.validate_transaction_at(&second, 11), Ok(()));
}

#[test]
fn rejected_nonce_does_not_move_the_window() {
    let mut validator = SecurityValidator::new(SecurityConfig::default());
    let mut tx = sample_tx();
    tx.nonce = 100;
    tx.gas_price = 1;
    let tx = hashed(&validator, &tx);
    assert_eq!(validator.validate_transaction_at(&tx, 1), Err(SecurityError::InsufficientGasPrice));
    let mut far = sample_tx();
    far.nonce = 150;
    let far = hashed(&validator, &far);
    assert_eq!(validator.validate_transaction_at(&far, 1), Err(SecurityError::NonceGap));
}
