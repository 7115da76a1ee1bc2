use ionova_core::crypto::{Address, PublicKeyData, Signature};
use ionova_core::rpc::{chain_id, handle_request, send_raw_transaction, RpcReply, DOMAIN_ERROR, INVALID_PARAMS, METHOD_NOT_FOUND};
use ionova_core::transaction::Transaction;
use sha2::Digest;

fn unsigned() -> Transaction {
    Transaction {
        nonce: 0,
        from: Address::EVM([1; 20]),
        to: Address::EVM([2; 20]),
        value: 5,
        gas_limit: 21_000,
        gas_price: 1,
        data: vec![],
        signature: Signature::ECDSA { r: [0; 32], s: [0; 32], v: 0 },
        public_key: PublicKeyData::ECDSA { bytes: [0; 33] },
        expiry: None,
    }
}

#[test]
fn chain_id_is_hex_of_base_plus_shard() {
    assert_eq!(chain_id(0), "0x7a69");
    assert_eq!(chain_id(7), format!("0x{:x}", 31337 + 7));
}

#[test]
fn simple_methods_are_answered() {
    let none = || Err("no transaction".to_string());
    assert_eq!(handle_request("web3_clientVersion", 0, none()), RpcReply::Success("Ionova/v0.1.0".to_string()));
    assert_eq!(handle_request("eth_chainId", 1, none()), RpcReply::Success("0x7a6a".to_string()));
    assert!(matches!(handle_request("eth_mining", 0, none()), RpcReply::Failure { code, .. } if code == METHOD_NOT_FOUND));
    assert!(matches!(handle_request("eth_sendRawTransaction", 0, none()), RpcReply::Failure { code, .. } if code == INVALID_PARAMS));
    assert!(matches!(handle_request("eth_sendRawTransaction", 0, Ok(unsigned())), RpcReply::Failure { code, .. } if code == DOMAIN_ERROR));
}

#[test]
fn undecodable_transaction_is_invalid_params() {
    match send_raw_transaction(Err("missing field".to_string())) {
        RpcReply::Failure { code, message } => {
            assert_eq!(code, INVALID_PARAMS);
            assert_eq!(message, "Invalid transaction: missing field");
        }
        other => panic!("unexpected {:?}", other),
    }
}

#[test]
fn unverifiable_signature_is_a_domain_error() {
    assert!(matches!(send_raw_transaction(Ok(unsigned())), RpcReply::Failure { code, .. } if code == DOMAIN_ERROR));
}

#[test]
fn signed_transaction_is_accepted() {
    let secp = secp256k1::Secp256k1::new();
    let sk = secp256k1::SecretKey::from_slice(&[9u8; 32]).unwrap();
    let mut tx = unsigned();
    tx.public_key = PublicKeyData::ECDSA { bytes: secp256k1::PublicKey::from_secret_key(&secp, &sk).serialize() };
    let digest: [u8; 32] = sha2::Sha256::digest(tx.hash()).into();
    let compact = secp.sign_ecdsa(&secp256k1::Message::from_digest(digest), &sk).serialize_compact();
    let mut r = [0u8; 32];
    let mut s = [0u8; 32];
    r.copy_from_slice(&compact[..32]);
    s.copy_from_slice(&compact[32..]);
    tx.signature = Signature::ECDSA { r, s, v: 0 };
    assert_eq!(send_raw_transaction(Ok(tx)), RpcReply::Success("0x1".to_string()));
}
