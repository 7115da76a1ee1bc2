use ionova_core::crypto::{Address, PublicKeyData, Signature};
use ionova_core::mempool::{Mempool, MempoolConfig, MempoolError};
use ionova_core::transaction::Transaction;
use sha2::Digest;

fn tx(sender: u8, nonce: u64, gas_price: u128) -> Transaction {
    Transaction {
        nonce,
        from: Address::EVM([sender; 20]),
        to: Address::EVM([9; 20]),
        value: 1,
        gas_limit: 21_000,
        gas_price,
        data: vec![sender],
        signature: Signature::ECDSA { r: [0; 32], s: [0; 32], v: 0 },
        public_key: PublicKeyData::ECDSA { bytes: [0; 33] },
        expiry: None,
    }
}

fn signed(mut t: Transaction) -> Transaction {
    let secp = secp256k1::Secp256k1::new();
    let sk = secp256k1::SecretKey::from_slice(&[5u8; 32]).unwrap();
    t.public_key = PublicKeyData::ECDSA { bytes: secp256k1::PublicKey::from_secret_key(&secp, &sk).serialize() };
    let digest: [u8; 32] = sha2::Sha256::digest(t.hash()).into();
    let compact = secp.sign_ecdsa(&secp256k1::Message::from_digest(digest), &sk).serialize_compact();
    let mut r = [0u8; 32];
    let mut s = [0u8; 32];
    r.copy_from_slice(&compact[..32]);
    s.copy_from_slice(&compact[32..]);
    t.signature = Signature::ECDSA { r, s, v: 0 };
    t
}

fn config(max_size: usize, per_account: usize) -> MempoolConfig {
    MempoolConfig { max_size, max_tx_age_secs: 3600, min_gas_price: 1, max_tx_per_account: per_account }
}

#[test]
fn signed_transaction_is_accepted_into_an_empty_pool() {
    let mut pool = Mempool::new(MempoolConfig::default());
    let t = signed(tx(1, 0, 1_000_000_000_000));
    let hash = pool.add_tx(t.clone(), 100).unwrap();
    assert_eq!(hash, t.hash());
    assert_eq!(pool.size(), 1);
}

#[test]
fn badly_signed_transaction_is_rejected() {
    let mut pool = Mempool::new(MempoolConfig::default());
    let mut t = signed(tx(1, 0, 5));
    t.nonce = 1;
    assert_eq!(pool.add_tx(t, 100), Err(MempoolError::BadSignature));
    assert_eq!(pool.size(), 0);
}

#[test]
fn third_transaction_of_a_sender_over_its_cap_is_rate_limited() {
    let mut pool = Mempool::new(config(2, 2));
    assert!(pool.add_verified(tx(1, 0, 5), 0).is_ok());
    assert!(pool.add_verified(tx(1, 1, 5), 0).is_ok());
    assert_eq!(pool.add_verified(tx(1, 2, 5), 0), Err(MempoolError::RateLimitExceeded));
    assert_eq!(pool.size(), 2);
}

#[test]
fn batch_takes_highest_price_first_and_oldest_among_equals() {
    let mut pool = Mempool::new(config(10, 10));
    pool.add_verified(tx(1, 0, 5), 0).unwrap();
    pool.add_verified(tx(2, 0, 9), 0).unwrap();
    pool.add_verified(tx(3, 0, 5), 0).unwrap();
    pool.add_verified(tx(4, 0, 7), 0).unwrap();
    let batch = pool.get_batch(3);
    let senders: Vec<Address> = batch.iter().map(|t| t.from).collect();
    assert!(matches!(senders[0], Address::EVM(a) if a == [2; 20]));
    assert!(matches!(senders[1], Address::EVM(a) if a == [4; 20]));
    assert!(matches!(senders[2], Address::EVM(a) if a == [1; 20]));
    assert_eq!(pool.size(), 1);
    let rest = pool.get_batch(10);
    assert_eq!(rest.len(), 1);
    assert!(pool.get_batch(10).is_empty());
}

#[test]
fn full_pool_evicts_its_lowest_priority_entry() {
    let mut pool = Mempool::new(config(2, 10));
    pool.add_verified(tx(1, 0, 5), 0).unwrap();
    pool.add_verified(tx(2, 0, 9), 0).unwrap();
    pool.add_verified(tx(3, 0, 7), 0).unwrap();
    assert_eq!(pool.size(), 2);
    let prices: Vec<u128> = pool.get_batch(2).iter().map(|t| t.gas_price).collect();
    assert_eq!(prices, vec![9, 7]);
}

#[test]
fn duplicates_cheap_and_expired_transactions_are_rejected() {
    let mut pool = Mempool::new(config(10, 10));
    pool.add_verified(tx(1, 0, 5), 0).unwrap();
    assert_eq!(pool.add_verified(tx(1, 0, 5), 0), Err(MempoolError::TxExists));
    assert_eq!(pool.add_verified(tx(1, 1, 0), 0), Err(MempoolError::FeeTooLow));
    let mut old = tx(1, 2, 5);
    old.expiry = Some(10);
    assert_eq!(pool.add_verified(old, 11), Err(MempoolError::Expired));
    let mut empty = Mempool::new(config(0, 10));
    assert_eq!(empty.add_verified(tx(1, 0, 5), 0), Err(MempoolError::MempoolFull));
}

#[test]
fn sweep_drops_entries_older_than_the_maximum_age() {
    let mut pool = Mempool::new(config(10, 10));
    pool.add_verified(tx(1, 0, 5), 0).unwrap();
    pool.add_verified(tx(2, 0, 6), 3_000).unwrap();
    pool.cleanup_expired(3_600);
    assert_eq!(pool.size(), 2);
    pool.cleanup_expired(4_000);
    assert_eq!(pool.size(), 1);
    assert_eq!(pool.get_batch(1)[0].gas_price, 6);
}

#[test]
fn stats_count_senders_and_capacity() {
    let mut pool = Mempool::new(config(8, 10));
    pool.add_verified(tx(1, 0, 5), 0).unwrap();
    pool.add_verified(tx(1, 1, 5), 0).unwrap();
    pool.add_verified(tx(2, 0, 5), 0).unwrap();
    let stats = pool.stats();
    assert_eq!(stats.total_transactions, 3);
    assert_eq!(stats.unique_accounts, 2);
    assert_eq!(stats.capacity_used_percent, 37);
}

#[test]
fn no_transaction_is_handed_out_twice() {
    let mut pool = Mempool::new(config(10, 10));
    for n in 0..5 {
        pool.add_verified(tx(1, n, 5 + n as u128), 0).unwrap();
    }
    let mut seen: Vec<u64> = Vec::new();
    for _ in 0..4 {
        for t in pool.get_batch(2) {
            assert!(!seen.contains(&t.nonce));
            seen.push(t.nonce);
        }
    }
    assert_eq!(seen.len(), 5);
}
