use ionova_core::crypto::{Address, PublicKeyData, Signature};
use ionova_core::fee_model::FeeConfig;
use ionova_core::mempool::MempoolConfig;
use ionova_core::sequencer::{Sequencer, SequencerConfig};
use ionova_core::transaction::Transaction;
use sha2::Digest;

fn tx(nonce: u64, gas_price: u128) -> Transaction {
    Transaction {
        nonce,
        from: Address::EVM([1; 20]),
        to: Address::EVM([2; 20]),
        value: 1,
        gas_limit: 21_000,
        gas_price,
        data: vec![nonce as u8],
        signature: Signature::ECDSA { r: [0; 32], s: [0; 32], v: 0 },
        public_key: PublicKeyData::ECDSA { bytes: [0; 33] },
        expiry: None,
    }
}

fn sequencer(max_batch_size: usize) -> Sequencer {
    Sequencer::new(SequencerConfig {
        shard_id: 3,
        micro_block_interval_ms: 200,
        batch_interval_ms: 1000,
        max_batch_size,
        fee_config: FeeConfig::default(),
        mempool_config: MempoolConfig::default(),
    })
}

#[test]
fn micro_tick_draws_transactions_into_a_numbered_block() {
    let mut s = sequencer(2);
    assert!(!s.on_micro_tick(1));
    for n in 0..3 {
        s.mempool.add_verified(tx(n, 10 - n as u128), 0).unwrap();
    }
    assert!(s.on_micro_tick(5));
    assert_eq!(s.micro_blocks.len(), 1);
    let mb = &s.micro_blocks[0];
    assert_eq!(mb.sequence, 1);
    assert_eq!(mb.shard_id, 3);
    assert_eq!(mb.timestamp, 5);
    assert_eq!(mb.transactions.len(), 2);
    let mut hashes = Vec::new();
    for t in &mb.transactions {
        hashes.extend_from_slice(&t.hash());
    }
    let root: [u8; 32] = sha2::Sha256::digest(&hashes).into();
    assert_eq!(mb.state_root, root);
    assert!(s.on_micro_tick(6));
    assert_eq!(s.micro_blocks[1].sequence, 2);
    assert_eq!(s.mempool.size(), 0);
}

#[test]
fn batch_tick_bundles_buffered_blocks() {
    let mut s = sequencer(1);
    assert!(s.on_batch_tick(1).is_none());
    s.mempool.add_verified(tx(0, 5), 0).unwrap();
    s.mempool.add_verified(tx(1, 4), 0).unwrap();
    assert!(s.on_micro_tick(2));
    assert!(s.on_micro_tick(3));
    let roots: Vec<u8> = s.micro_blocks.iter().flat_map(|m| m.state_root.to_vec()).collect();
    let batch = s.on_batch_tick(4).unwrap();
    assert_eq!(batch.batch_sequence, 1);
    assert_eq!(batch.micro_blocks.len(), 2);
    assert_eq!(batch.transactions_count, 2);
    let expected: [u8; 32] = sha2::Sha256::digest(&roots).into();
    assert_eq!(batch.state_root, expected);
    assert!(s.micro_blocks.is_empty());
    assert!(s.on_batch_tick(5).is_none());
    assert_eq!(s.batch_counter, 1);
}

#[test]
fn failed_batch_is_retried_once() {
    let mut s = sequencer(1);
    s.mempool.add_verified(tx(0, 5), 0).unwrap();
    s.on_micro_tick(1);
    let batch = s.on_batch_tick(2).unwrap();
    s.on_submit_failure(batch, false);
    let again = s.take_retry().unwrap();
    assert_eq!(again.batch_sequence, 1);
    assert!(s.take_retry().is_none());
    s.on_submit_failure(again, true);
    assert!(s.take_retry().is_none());
}

#[test]
fn incoming_transaction_needs_a_valid_signature() {
    let mut s = sequencer(10);
    assert_eq!(s.on_transaction(tx(0, 5), 0), Err(ionova_core::mempool::MempoolError::BadSignature));
    let secp = secp256k1::Secp256k1::new();
    let sk = secp256k1::SecretKey::from_slice(&[4u8; 32]).unwrap();
    let mut t = tx(1, 5);
    t.public_key = PublicKeyData::ECDSA { bytes: secp256k1::PublicKey::from_secret_key(&secp, &sk).serialize() };
    let digest: [u8; 32] = sha2::Sha256::digest(t.hash()).into();
    let compact = secp.sign_ecdsa(&secp256k1::Message::from_digest(digest), &sk).serialize_compact();
    let mut r = [0u8; 32];
    let mut sv = [0u8; 32];
    r.copy_from_slice(&compact[..32]);
    sv.copy_from_slice(&compact[32..]);
    t.signature = Signature::ECDSA { r, s: sv, v: 0 };
    assert!(s.on_transaction(t, 0).is_ok());
    assert_eq!(s.mempool.size(), 1);
}
