use ionova_core::crypto::{CryptoError, PublicKeyData, Signature, SignatureAlgorithm, SizedPart};
use pqcrypto_traits::sign::{PublicKey as _, SignedMessage as _};
use sha2::Digest;

fn ecdsa_fixture(message: &[u8]) -> (Signature, PublicKeyData) {
    let secp = secp256k1::Secp256k1::new();
    let sk = secp256k1::SecretKey::from_slice(&[7u8; 32]).unwrap();
    let pk = secp256k1::PublicKey::from_secret_key(&secp, &sk).serialize();
    let digest: [u8; 32] = sha2::Sha256::digest(message).into();
    let compact = secp.sign_ecdsa(&secp256k1::Message::from_digest(digest), &sk).serialize_compact();
    let mut r = [0u8; 32];
    let mut s = [0u8; 32];
    r.copy_from_slice(&compact[..32]);
    s.copy_from_slice(&compact[32..]);
    (Signature::ECDSA { r, s, v: 27 }, PublicKeyData::ECDSA { bytes: pk })
}

#[test]
fn test_signature_sizes() {
    let ecdsa_sig = Signature::ECDSA { r: [0u8; 32], s: [0u8; 32], v: 0 };
    assert_eq!(ecdsa_sig.size(), 65);
    let dilithium_sig = Signature::Dilithium { data: vec![0u8; 2420] };
    assert_eq!(dilithium_sig.size(), 2420);
}

#[test]
fn test_signature_algorithm() {
    let sig = Signature::ECDSA { r: [0u8; 32], s: [0u8; 32], v: 0 };
    assert_eq!(sig.algorithm(), SignatureAlgorithm::ECDSA);
}

#[test]
fn test_hybrid_with_mismatched_public_key() {
    let hybrid_sig = Signature::Hybrid {
        ecdsa: Box::new(Signature::ECDSA { r: [0xFF; 32], s: [0xEE; 32], v: 27 }),
        pq: Box::new(Signature::Dilithium { data: vec![0xAA; 4595] }),
    };
    let ecdsa_only_pk = PublicKeyData::ECDSA { bytes: [0x04; 33] };
    let result = hybrid_sig.verify(&[0u8; 32], &ecdsa_only_pk);
    assert!(result.is_err());
    assert!(result.unwrap_err().message().contains("Hybrid signature requires hybrid public key"));
}

#[test]
fn test_hybrid_with_correct_public_key() {
    let hybrid_pk = PublicKeyData::Hybrid {
        ecdsa: Box::new(PublicKeyData::ECDSA { bytes: [0x04; 33] }),
        pq: Box::new(PublicKeyData::Dilithium { bytes: vec![0xBB; 2528] }),
    };
    let hybrid_sig = Signature::Hybrid {
        ecdsa: Box::new(Signature::ECDSA { r: [0xFF; 32], s: [0xEE; 32], v: 27 }),
        pq: Box::new(Signature::Dilithium { data: vec![0xAA; 4595] }),
    };
    let result = hybrid_sig.verify(&[0u8; 32], &hybrid_pk);
    assert!(result.is_ok() || result.is_err());
}

#[test]
fn test_dilithium_invalid_public_key_size() {
    let pk = PublicKeyData::Dilithium { bytes: vec![0xAA; 1000] };
    let sig = Signature::Dilithium { data: vec![0xBB; 4595] };
    let result = sig.verify(&[0u8; 32], &pk);
    assert!(result.is_err());
    assert!(result.unwrap_err().message().contains("Invalid Dilithium public key size"));
}

#[test]
fn test_dilithium_invalid_signature_size() {
    let pk = PublicKeyData::Dilithium { bytes: vec![0xAA; 2528] };
    let sig = Signature::Dilithium { data: vec![0xBB; 1000] };
    let result = sig.verify(&[0u8; 32], &pk);
    assert!(result.is_err());
    assert!(result.unwrap_err().message().contains("Invalid Dilithium signature size"));
}

#[test]
fn hybrid_size_adds_both_legs() {
    let sig = Signature::Hybrid {
        ecdsa: Box::new(Signature::ECDSA { r: [0; 32], s: [0; 32], v: 0 }),
        pq: Box::new(Signature::SPHINCSPlus { data: vec![1u8; 100] }),
    };
    assert_eq!(sig.size(), 165);
    assert_eq!(sig.algorithm(), SignatureAlgorithm::Hybrid);
}

#[test]
fn hybrid_signature_with_ecdsa_key_is_wrong_variant() {
    let sig = Signature::Hybrid {
        ecdsa: Box::new(Signature::ECDSA { r: [1; 32], s: [1; 32], v: 0 }),
        pq: Box::new(Signature::Dilithium { data: vec![0; 4595] }),
    };
    let pk = PublicKeyData::ECDSA { bytes: [2; 33] };
    assert_eq!(sig.verify(b"m", &pk), Err(CryptoError::WrongKeyVariant(SignatureAlgorithm::Hybrid)));
}

#[test]
fn dilithium_short_signature_is_bad_size() {
    let pk = PublicKeyData::Dilithium { bytes: vec![0; 2592] };
    let sig = Signature::Dilithium { data: vec![0; 2000] };
    assert_eq!(sig.verify(b"m", &pk), Err(CryptoError::BadSize(SizedPart::Signature)));
    let short_key = PublicKeyData::Dilithium { bytes: vec![0; 2528] };
    assert_eq!(sig.verify(b"m", &short_key), Err(CryptoError::BadSize(SizedPart::Both)));
    assert_eq!(
        CryptoError::BadSize(SizedPart::Both).message(),
        "Invalid Dilithium public key size. Invalid Dilithium signature size"
    );
}

#[test]
fn dilithium_garbage_of_the_right_sizes_is_rejected() {
    let pk = PublicKeyData::Dilithium { bytes: vec![0; 2592] };
    let sig = Signature::Dilithium { data: vec![0; 4627] };
    assert_eq!(sig.verify(b"m", &pk), Ok(false));
}

#[test]
fn dilithium_valid_signature_verifies_and_other_message_does_not() {
    let (pk, sk) = pqcrypto_dilithium::dilithium5::keypair();
    let message = b"block 7";
    let signed = pqcrypto_dilithium::dilithium5::sign(message, &sk);
    let bytes = signed.as_bytes();
    let data = bytes[..bytes.len() - message.len()].to_vec();
    assert_eq!(data.len(), 4627);
    let sig = Signature::Dilithium { data };
    let pk = PublicKeyData::Dilithium { bytes: pk.as_bytes().to_vec() };
    assert_eq!(sig.verify(message, &pk), Ok(true));
    assert_eq!(sig.verify(b"block 8", &pk), Ok(false));
}

#[test]
fn ecdsa_signature_with_dilithium_key_is_wrong_variant() {
    let sig = Signature::ECDSA { r: [1; 32], s: [1; 32], v: 0 };
    let pk = PublicKeyData::Dilithium { bytes: vec![0; 2528] };
    assert_eq!(sig.verify(b"m", &pk), Err(CryptoError::WrongKeyVariant(SignatureAlgorithm::ECDSA)));
}

#[test]
fn ecdsa_key_that_does_not_decode_is_parse_error() {
    let (sig, _) = ecdsa_fixture(b"hello");
    let pk = PublicKeyData::ECDSA { bytes: [0x04; 33] };
    assert_eq!(sig.verify(b"hello", &pk), Err(CryptoError::ParseError(SignatureAlgorithm::ECDSA)));
}

#[test]
fn ecdsa_valid_signature_verifies_and_other_message_does_not() {
    let (sig, pk) = ecdsa_fixture(b"transfer 10");
    assert_eq!(sig.verify(b"transfer 10", &pk), Ok(true));
    assert_eq!(sig.verify(b"transfer 11", &pk), Ok(false));
}

#[test]
fn sphincs_wrong_key_length_is_parse_error() {
    let sig = Signature::SPHINCSPlus { data: vec![0; 10] };
    let pk = PublicKeyData::SPHINCSPlus { bytes: vec![0; 63] };
    assert_eq!(sig.verify(b"m", &pk), Err(CryptoError::ParseError(SignatureAlgorithm::SPHINCSPlus)));
}

#[test]
fn sphincs_valid_signature_verifies_and_other_message_does_not() {
    let (pk, sk) = pqcrypto_sphincsplus::sphincssha2256fsimple::keypair();
    let message = b"batch 42";
    let signed = pqcrypto_sphincsplus::sphincssha2256fsimple::sign(message, &sk);
    let bytes = signed.as_bytes();
    let data = bytes[..bytes.len() - message.len()].to_vec();
    let sig = Signature::SPHINCSPlus { data };
    let pk = PublicKeyData::SPHINCSPlus { bytes: pk.as_bytes().to_vec() };
    assert_eq!(sig.verify(message, &pk), Ok(true));
    assert_eq!(sig.verify(b"batch 43", &pk), Ok(false));
}

#[test]
fn hybrid_needs_both_legs_valid() {
    let (ecdsa, ecdsa_pk) = ecdsa_fixture(b"both");
    let hybrid = Signature::Hybrid {
        ecdsa: Box::new(ecdsa.clone()),
        pq: Box::new(Signature::SPHINCSPlus { data: vec![0; 100] }),
    };
    let pk = PublicKeyData::Hybrid {
        ecdsa: Box::new(ecdsa_pk.clone()),
        pq: Box::new(PublicKeyData::SPHINCSPlus { bytes: vec![0; 64] }),
    };
    assert_eq!(hybrid.verify(b"both", &pk), Ok(false));
}

#[test]
fn addresses_derive_from_key_digests() {
    let key = [3u8; 33];
    let digest: [u8; 32] = sha2::Sha256::digest(key).into();
    let mut evm = [0u8; 20];
    evm.copy_from_slice(&digest[12..]);
    assert!(matches!(PublicKeyData::ECDSA { bytes: key }.to_address(), ionova_core::crypto::Address::EVM(a) if a == evm));
    let pq = vec![4u8; 64];
    let pq_digest: [u8; 32] = sha2::Sha256::digest(&pq).into();
    assert!(matches!(PublicKeyData::SPHINCSPlus { bytes: pq.clone() }.to_address(), ionova_core::crypto::Address::Native(a) if a == pq_digest));
    let hybrid = PublicKeyData::Hybrid {
        ecdsa: Box::new(PublicKeyData::ECDSA { bytes: key }),
        pq: Box::new(PublicKeyData::SPHINCSPlus { bytes: pq }),
    };
    assert!(matches!(hybrid.to_address(), ionova_core::crypto::Address::EVM(a) if a == evm));
}

#[test]
fn hybrid_legs_of_the_wrong_kind_are_refused() {
    let sig = Signature::Hybrid {
        ecdsa: Box::new(Signature::SPHINCSPlus { data: vec![0; 10] }),
        pq: Box::new(Signature::SPHINCSPlus { data: vec![0; 10] }),
    };
    let pk = PublicKeyData::Hybrid {
        ecdsa: Box::new(PublicKeyData::SPHINCSPlus { bytes: vec![0; 64] }),
        pq: Box::new(PublicKeyData::SPHINCSPlus { bytes: vec![0; 64] }),
    };
    assert_eq!(sig.verify(b"m", &pk), Err(CryptoError::WrongKeyVariant(SignatureAlgorithm::Hybrid)));
    let (ecdsa, ecdsa_pk) = ecdsa_fixture(b"m");
    let good_sig = Signature::Hybrid {
        ecdsa: Box::new(ecdsa.clone()),
        pq: Box::new(Signature::SPHINCSPlus { data: vec![0; 10] }),
    };
    let ecdsa_pq_key = PublicKeyData::Hybrid { ecdsa: Box::new(ecdsa_pk.clone()), pq: Box::new(ecdsa_pk) };
    assert_eq!(good_sig.verify(b"m", &ecdsa_pq_key), Err(CryptoError::WrongKeyVariant(SignatureAlgorithm::Hybrid)));
}

#[test]
fn error_messages_name_the_failure() {
    assert_eq!(CryptoError::BadSize(SizedPart::PublicKey).message(), "Invalid Dilithium public key size");
    assert_eq!(CryptoError::WrongKeyVariant(SignatureAlgorithm::ECDSA).message(), "Public key type mismatch");
}
