use crate::digest::{sha256, sha256_of};
use pqcrypto_traits::sign::{PublicKey as _, SignedMessage as _};
use vstd::prelude::*;

verus! {

/// Length of a Dilithium5 public key: `dilithium5::public_key_bytes()` of
/// pqcrypto-dilithium, whose `PublicKey::from_bytes` accepts exactly this length.
pub const DILITHIUM_PK_SIZE: usize = 2592;

/// Length of a Dilithium5 signature: `dilithium5::signature_bytes()` of
/// pqcrypto-dilithium.
pub const DILITHIUM_SIG_SIZE: usize = 4627;

/// Supported signature algorithms.
#[derive(Debug, Clone, Copy, PartialEq, Eq, Structural)]
pub enum SignatureAlgorithm {
    /// secp256k1 ECDSA, compatible with existing wallets.
    ECDSA,
    /// Dilithium5 lattice signatures.
    Dilithium,
    /// SPHINCS+ hash-based signatures.
    SPHINCSPlus,
    /// An ECDSA and a post-quantum signature over the same message.
    Hybrid,
}

/// A signature under one of the supported algorithms.
#[derive(Debug)]
pub enum Signature {
    ECDSA { r: [u8; 32], s: [u8; 32], v: u8 },
    Dilithium { data: Vec<u8> },
    SPHINCSPlus { data: Vec<u8> },
    Hybrid { ecdsa: Box<Signature>, pq: Box<Signature> },
}

/// A public key, with variants parallel to those of `Signature`.
#[derive(Debug)]
pub enum PublicKeyData {
    ECDSA { bytes: [u8; 33] },
    Dilithium { bytes: Vec<u8> },
    SPHINCSPlus { bytes: Vec<u8> },
    Hybrid { ecdsa: Box<PublicKeyData>, pq: Box<PublicKeyData> },
}

/// An account address: 20 bytes for ECDSA keys, 32 for hash-derived ones.
#[derive(Debug, Clone, Copy)]
pub enum Address {
    EVM([u8; 20]),
    Native([u8; 32]),
}

/// Which part of a verification input had the wrong length.
#[derive(Debug, Clone, Copy, PartialEq, Eq, Structural)]
pub enum SizedPart {
    PublicKey,
    Signature,
    /// Both the key and the signature.
    Both,
}

/// Why a signature could not be checked at all.
#[derive(Debug, Clone, Copy, PartialEq, Eq, Structural)]
pub enum CryptoError {
    /// The public key is not of the variant the signature needs.
    WrongKeyVariant(SignatureAlgorithm),
    /// A key or signature has the wrong length.
    BadSize(SizedPart),
    /// A key or signature could not be decoded.
    ParseError(SignatureAlgorithm),
}

impl CryptoError {
    /// A human-readable description of the error.
    pub fn message(&self) -> (r: String)
        ensures
            r@ == (match *self {
                CryptoError::WrongKeyVariant(SignatureAlgorithm::Hybrid) => "Hybrid signature requires hybrid public key"@,
                CryptoError::WrongKeyVariant(_) => "Public key type mismatch"@,
                CryptoError::BadSize(SizedPart::PublicKey) => "Invalid Dilithium public key size"@,
                CryptoError::BadSize(SizedPart::Signature) => "Invalid Dilithium signature size"@,
                CryptoError::BadSize(SizedPart::Both) => "Invalid Dilithium public key size. Invalid Dilithium signature size"@,
                CryptoError::ParseError(_) => "Invalid signature or public key encoding"@,
            }),
    {
        match self {
            CryptoError::WrongKeyVariant(SignatureAlgorithm::Hybrid) => {
                "Hybrid signature requires hybrid public key".to_string()
            },
            CryptoError::WrongKeyVariant(_) => "Public key type mismatch".to_string(),
            CryptoError::BadSize(SizedPart::PublicKey) => {
                "Invalid Dilithium public key size".to_string()
            },
            CryptoError::BadSize(SizedPart::Signature) => {
                "Invalid Dilithium signature size".to_string()
            },
            CryptoError::BadSize(SizedPart::Both) => {
                "Invalid Dilithium public key size. Invalid Dilithium signature size".to_string()
            },
            CryptoError::ParseError(_) => "Invalid signature or public key encoding".to_string(),
        }
    }
}

/// Whether secp256k1 accepts 64 bytes as a compact `(r, s)` signature.
pub uninterp spec fn ecdsa_compact_valid(sig: Seq<u8>) -> bool;

/// Whether secp256k1 accepts bytes as a serialized public key.
pub uninterp spec fn ecdsa_key_valid(pk: Seq<u8>) -> bool;

/// Whether an ECDSA signature verifies over a 32-byte digest.
pub uninterp spec fn ecdsa_valid(digest: Seq<u8>, sig: Seq<u8>, pk: Seq<u8>) -> bool;

/// What Dilithium5 `open` recovers from a signed message, if it verifies.
pub uninterp spec fn dilithium_opened(signed: Seq<u8>, pk: Seq<u8>) -> Option<Seq<u8>>;

/// What SPHINCS+ `open` recovers from a signed message, if it verifies.
pub uninterp spec fn sphincs_opened(signed: Seq<u8>, pk: Seq<u8>) -> Option<Seq<u8>>;

/// Relies on secp256k1::ecdsa::Signature::from_compact: decoding depends on the bytes alone.
#[verifier::external_body]
fn ecdsa_compact_parses(sig: &[u8]) -> (r: bool)
    ensures
        r == ecdsa_compact_valid(sig@),
{
    secp256k1::ecdsa::Signature::from_compact(sig).is_ok()
}

/// Relies on secp256k1::PublicKey::from_slice: decoding depends on the bytes alone.
#[verifier::external_body]
fn ecdsa_key_parses(pk: &[u8]) -> (r: bool)
    ensures
        r == ecdsa_key_valid(pk@),
{
    secp256k1::PublicKey::from_slice(pk).is_ok()
}

/// Relies on secp256k1::Secp256k1::verify_ecdsa over a 32-byte digest; the
/// signature and key are decoded as in the two checks above, which the
/// caller has made.
#[verifier::external_body]
fn ecdsa_verify(digest: &[u8; 32], sig: &[u8], pk: &[u8]) -> (r: bool)
    requires
        ecdsa_compact_valid(sig@),
        ecdsa_key_valid(pk@),
    ensures
        r == ecdsa_valid(digest@, sig@, pk@),
{
    let secp = secp256k1::Secp256k1::verification_only();
    let msg = secp256k1::Message::from_digest(*digest);
    match (secp256k1::ecdsa::Signature::from_compact(sig), secp256k1::PublicKey::from_slice(pk)) {
        (Ok(s), Ok(p)) => secp.verify_ecdsa(&msg, &s, &p).is_ok(),
        _ => false,
    }
}

/// Relies on pqcrypto_dilithium::dilithium5::open: the message recovered
/// from a signed message, or `None` where verification fails. The key is
/// decoded with `PublicKey::from_bytes`, which accepts every slice of the
/// key length.
#[verifier::external_body]
fn dilithium_open(signed: &[u8], pk: &[u8]) -> (r: Option<Vec<u8>>)
    requires
        pk@.len() == DILITHIUM_PK_SIZE,
    ensures
        match r {
            Some(m) => dilithium_opened(signed@, pk@) == Some(m@),
            None => dilithium_opened(signed@, pk@) is None,
        },
{
    let pk = pqcrypto_dilithium::dilithium5::PublicKey::from_bytes(pk).ok()?;
    let sm = pqcrypto_dilithium::dilithium5::SignedMessage::from_bytes(signed).ok()?;
    pqcrypto_dilithium::dilithium5::open(&sm, &pk).ok()
}

/// Relies on pqcrypto_sphincsplus::sphincssha2256fsimple::PublicKey::from_bytes,
/// which accepts exactly the slices of its key length, 64 bytes.
#[verifier::external_body]
fn sphincs_key_parses(pk: &[u8]) -> (r: bool)
    ensures
        r == (pk@.len() == 64),
{
    pqcrypto_sphincsplus::sphincssha2256fsimple::PublicKey::from_bytes(pk).is_ok()
}

/// Relies on pqcrypto_sphincsplus::sphincssha2256fsimple::open: the message
/// recovered from a signed message, or `None` where verification fails.
#[verifier::external_body]
fn sphincs_open(signed: &[u8], pk: &[u8]) -> (r: Option<Vec<u8>>)
    requires
        pk@.len() == 64,
    ensures
        match r {
            Some(m) => sphincs_opened(signed@, pk@) == Some(m@),
            None => sphincs_opened(signed@, pk@) is None,
        },
{
    let pk = pqcrypto_sphincsplus::sphincssha2256fsimple::PublicKey::from_bytes(pk).ok()?;
    let sm = pqcrypto_sphincsplus::sphincssha2256fsimple::SignedMessage::from_bytes(signed).ok()?;
    pqcrypto_sphincsplus::sphincssha2256fsimple::open(&sm, &pk).ok()
}

/// The algorithm of a signature.
pub open spec fn algorithm_of(sig: Signature) -> SignatureAlgorithm {
    match sig {
        Signature::ECDSA { .. } => SignatureAlgorithm::ECDSA,
        Signature::Dilithium { .. } => SignatureAlgorithm::Dilithium,
        Signature::SPHINCSPlus { .. } => SignatureAlgorithm::SPHINCSPlus,
        Signature::Hybrid { .. } => SignatureAlgorithm::Hybrid,
    }
}

/// Encoded size of a signature in bytes.
pub open spec fn sig_size(sig: Signature) -> nat
    decreases sig,
{
    match sig {
        Signature::ECDSA { .. } => 65,
        Signature::Dilithium { data } => data@.len(),
        Signature::SPHINCSPlus { data } => data@.len(),
        Signature::Hybrid { ecdsa, pq } => sig_size(*ecdsa) + sig_size(*pq),
    }
}

/// The compact `(r, s)` encoding that secp256k1 verifies.
pub open spec fn compact_of(r: [u8; 32], s: [u8; 32]) -> Seq<u8> {
    r@ + s@
}

/// Whether a post-quantum signature is accepted: opening the signature
/// followed by the message yields the message itself.
pub open spec fn pq_accepts(opened: Option<Seq<u8>>, msg: Seq<u8>) -> bool {
    opened == Some(msg)
}

/// The outcome of verifying `sig` over `msg` with `pk`.
pub open spec fn verify_outcome(sig: Signature, msg: Seq<u8>, pk: PublicKeyData) -> Result<
    bool,
    CryptoError,
>
    decreases sig,
{
    match sig {
        Signature::ECDSA { r, s, .. } => match pk {
            PublicKeyData::ECDSA { bytes } => {
                if !ecdsa_compact_valid(compact_of(r, s)) || !ecdsa_key_valid(bytes@) {
                    Err(CryptoError::ParseError(SignatureAlgorithm::ECDSA))
                } else {
                    Ok(ecdsa_valid(sha256_of(msg), compact_of(r, s), bytes@))
                }
            },
            _ => Err(CryptoError::WrongKeyVariant(SignatureAlgorithm::ECDSA)),
        },
        Signature::Dilithium { data } => match pk {
            PublicKeyData::Dilithium { bytes } => {
                if bytes@.len() != DILITHIUM_PK_SIZE && data@.len() != DILITHIUM_SIG_SIZE {
                    Err(CryptoError::BadSize(SizedPart::Both))
                } else if bytes@.len() != DILITHIUM_PK_SIZE {
                    Err(CryptoError::BadSize(SizedPart::PublicKey))
                } else if data@.len() != DILITHIUM_SIG_SIZE {
                    Err(CryptoError::BadSize(SizedPart::Signature))
                } else {
                    Ok(pq_accepts(dilithium_opened(data@ + msg, bytes@), msg))
                }
            },
            _ => Err(CryptoError::WrongKeyVariant(SignatureAlgorithm::Dilithium)),
        },
        Signature::SPHINCSPlus { data } => match pk {
            PublicKeyData::SPHINCSPlus { bytes } => {
                if bytes@.len() != 64 {
                    Err(CryptoError::ParseError(SignatureAlgorithm::SPHINCSPlus))
                } else {
                    Ok(pq_accepts(sphincs_opened(data@ + msg, bytes@), msg))
                }
            },
            _ => Err(CryptoError::WrongKeyVariant(SignatureAlgorithm::SPHINCSPlus)),
        },
        Signature::Hybrid { ecdsa, pq } => match pk {
            PublicKeyData::Hybrid { ecdsa: ecdsa_pk, pq: pq_pk } => if !hybrid_legs_ok(*ecdsa, *pq, *ecdsa_pk, *pq_pk) {
                Err(CryptoError::WrongKeyVariant(SignatureAlgorithm::Hybrid))
            } else {
                match verify_outcome(*ecdsa, msg, *ecdsa_pk) {
                    Err(e) => Err(e),
                    Ok(a) => match verify_outcome(*pq, msg, *pq_pk) {
                        Err(e) => Err(e),
                        Ok(b) => Ok(a && b),
                    },
                }
            },
            _ => Err(CryptoError::WrongKeyVariant(SignatureAlgorithm::Hybrid)),
        },
    }
}

/// Whether two addresses are the same: same variant, same bytes.
pub open spec fn same_address(a: Address, b: Address) -> bool {
    match (a, b) {
        (Address::EVM(x), Address::EVM(y)) => x@ == y@,
        (Address::Native(x), Address::Native(y)) => x@ == y@,
        _ => false,
    }
}

/// Whether two addresses are the same.
pub fn address_eq(a: &Address, b: &Address) -> (r: bool)
    ensures
        r == same_address(*a, *b),
{
    match (a, b) {
        (Address::EVM(x), Address::EVM(y)) => bytes_equal(x.as_slice(), y.as_slice()),
        (Address::Native(x), Address::Native(y)) => bytes_equal(x.as_slice(), y.as_slice()),
        _ => false,
    }
}

/// Whether the legs of a hybrid signature and key have the required kinds:
/// ECDSA first, post-quantum (Dilithium or SPHINCS+) second.
pub open spec fn hybrid_legs_ok(ecdsa: Signature, pq: Signature, ecdsa_pk: PublicKeyData, pq_pk: PublicKeyData) -> bool {
    &&& ecdsa is ECDSA
    &&& (pq is Dilithium || pq is SPHINCSPlus)
    &&& ecdsa_pk is ECDSA
    &&& (pq_pk is Dilithium || pq_pk is SPHINCSPlus)
}

/// Byte-wise equality of two byte strings.
pub(crate) fn bytes_equal(a: &[u8], b: &[u8]) -> (r: bool)
    ensures
        r == (a@ == b@),
{
    if a.len() != b.len() {
        return false;
    }
    let mut i: usize = 0;
    while i < a.len()
        invariant
            a@.len() == b@.len(),
            0 <= i <= a@.len(),
            forall|j: int| 0 <= j < i ==> a@[j] == b@[j],
        decreases a@.len() - i,
    {
        if a[i] != b[i] {
            return false;
        }
        i += 1;
    }
    assert(a@ =~= b@);
    true
}

/// `first` followed by `second`, as a new vector.
pub(crate) fn concat_bytes(first: &[u8], second: &[u8]) -> (r: Vec<u8>)
    requires
        first@.len() + second@.len() <= usize::MAX,
    ensures
        r@ == first@ + second@,
{
    let mut out: Vec<u8> = Vec::with_capacity(first.len() + second.len());
    let mut i: usize = 0;
    while i < first.len()
        invariant
            0 <= i <= first@.len(),
            out@ =~= first@.subrange(0, i as int),
        decreases first@.len() - i,
    {
        out.push(first[i]);
        i += 1;
    }
    let mut j: usize = 0;
    while j < second.len()
        invariant
            0 <= j <= second@.len(),
            out@ =~= first@ + second@.subrange(0, j as int),
        decreases second@.len() - j,
    {
        out.push(second[j]);
        j += 1;
    }
    assert(second@.subrange(0, second@.len() as int) =~= second@);
    out
}

/// Verdict of an opened post-quantum signed message.
fn opened_matches(opened: Option<Vec<u8>>, msg: &[u8]) -> (r: bool)
    ensures
        r == pq_accepts(
            match opened {
                Some(m) => Some(m@),
                None => None,
            },
            msg@,
        ),
{
    match opened {
        Some(m) => bytes_equal(m.as_slice(), msg),
        None => false,
    }
}

impl Clone for Signature {
    fn clone(&self) -> (r: Signature)
        decreases self,
    {
        match self {
            Signature::ECDSA { r, s, v } => Signature::ECDSA { r: *r, s: *s, v: *v },
            Signature::Dilithium { data } => Signature::Dilithium { data: data.clone() },
            Signature::SPHINCSPlus { data } => Signature::SPHINCSPlus { data: data.clone() },
            Signature::Hybrid { ecdsa, pq } => Signature::Hybrid {
                ecdsa: Box::new((**ecdsa).clone()),
                pq: Box::new((**pq).clone()),
            },
        }
    }
}

impl Clone for PublicKeyData {
    fn clone(&self) -> (r: PublicKeyData)
        decreases self,
    {
        match self {
            PublicKeyData::ECDSA { bytes } => PublicKeyData::ECDSA { bytes: *bytes },
            PublicKeyData::Dilithium { bytes } => PublicKeyData::Dilithium { bytes: bytes.clone() },
            PublicKeyData::SPHINCSPlus { bytes } => PublicKeyData::SPHINCSPlus { bytes: bytes.clone() },
            PublicKeyData::Hybrid { ecdsa, pq } => PublicKeyData::Hybrid {
                ecdsa: Box::new((**ecdsa).clone()),
                pq: Box::new((**pq).clone()),
            },
        }
    }
}

/// The address a public key derives: for ECDSA the last 20 bytes of the
/// SHA-256 of the key, for post-quantum keys the whole digest, and for a
/// hybrid key that of its ECDSA leg.
pub open spec fn address_bytes(pk: PublicKeyData) -> (bool, Seq<u8>)
    decreases pk,
{
    match pk {
        PublicKeyData::ECDSA { bytes } => (true, sha256_of(bytes@).subrange(12, 32)),
        PublicKeyData::Dilithium { bytes } => (false, sha256_of(bytes@)),
        PublicKeyData::SPHINCSPlus { bytes } => (false, sha256_of(bytes@)),
        PublicKeyData::Hybrid { ecdsa, .. } => address_bytes(*ecdsa),
    }
}

/// The variant and bytes of an address.
pub open spec fn address_parts(a: Address) -> (bool, Seq<u8>) {
    match a {
        Address::EVM(b) => (true, b@),
        Address::Native(b) => (false, b@),
    }
}

impl PublicKeyData {
    /// The address derived from this key.
    pub fn to_address(&self) -> (r: Address)
        ensures
            address_parts(r) == address_bytes(*self),
        decreases *self,
    {
        match self {
            PublicKeyData::ECDSA { bytes } => {
                let hash = sha256(bytes.as_slice());
                let mut addr = [0u8; 20];
                let mut i: usize = 0;
                while i < 20
                    invariant
                        0 <= i <= 20,
                        hash@.len() == 32,
                        forall|j: int| 0 <= j < i ==> addr@[j] == hash@[12 + j],
                    decreases 20 - i,
                {
                    addr[i] = hash[12 + i];
                    i += 1;
                }
                assert(addr@ =~= sha256_of(bytes@).subrange(12, 32));
                Address::EVM(addr)
            },
            PublicKeyData::Dilithium { bytes } => Address::Native(sha256(bytes.as_slice())),
            PublicKeyData::SPHINCSPlus { bytes } => Address::Native(sha256(bytes.as_slice())),
            PublicKeyData::Hybrid { ecdsa, .. } => ecdsa.to_address(),
        }
    }
}

impl Signature {
    /// The algorithm of this signature.
    pub fn algorithm(&self) -> (r: SignatureAlgorithm)
        ensures
            r == algorithm_of(*self),
    {
        match self {
            Signature::ECDSA { .. } => SignatureAlgorithm::ECDSA,
            Signature::Dilithium { .. } => SignatureAlgorithm::Dilithium,
            Signature::SPHINCSPlus { .. } => SignatureAlgorithm::SPHINCSPlus,
            Signature::Hybrid { .. } => SignatureAlgorithm::Hybrid,
        }
    }

    /// Size of this signature in bytes.
    pub fn size(&self) -> (r: usize)
        requires
            sig_size(*self) <= usize::MAX,
        ensures
            r == sig_size(*self),
        decreases *self,
    {
        match self {
            Signature::ECDSA { .. } => 65,
            Signature::Dilithium { data } => data.len(),
            Signature::SPHINCSPlus { data } => data.len(),
            Signature::Hybrid { ecdsa, pq } => {
                let a = ecdsa.size();
                let b = pq.size();
                a + b
            },
        }
    }

    /// Verifies this signature over `message` with `public_key`: `Ok(true)`
    /// when it is valid, `Ok(false)` on a cryptographic mismatch, and an
    /// error when the key has the wrong variant, a length is wrong, or an
    /// encoding cannot be decoded. A hybrid signature is valid only when
    /// both of its legs are.
    pub fn verify(&self, message: &[u8], public_key: &PublicKeyData) -> (r: Result<bool, CryptoError>)
        requires
            sig_size(*self) + message@.len() <= usize::MAX,
        ensures
            r == verify_outcome(*self, message@, *public_key),
        decreases *self,
    {
        match self {
            Signature::ECDSA { r, s, .. } => {
                let PublicKeyData::ECDSA { bytes } = public_key else {
                    return Err(CryptoError::WrongKeyVariant(SignatureAlgorithm::ECDSA));
                };
                let digest = sha256(message);
                let compact = concat_bytes(r.as_slice(), s.as_slice());
                if !ecdsa_compact_parses(compact.as_slice()) {
                    return Err(CryptoError::ParseError(SignatureAlgorithm::ECDSA));
                }
                if !ecdsa_key_parses(bytes.as_slice()) {
                    return Err(CryptoError::ParseError(SignatureAlgorithm::ECDSA));
                }
                Ok(ecdsa_verify(&digest, compact.as_slice(), bytes.as_slice()))
            },
            Signature::Dilithium { data } => {
                let PublicKeyData::Dilithium { bytes } = public_key else {
                    return Err(CryptoError::WrongKeyVariant(SignatureAlgorithm::Dilithium));
                };
                if bytes.len() != DILITHIUM_PK_SIZE && data.len() != DILITHIUM_SIG_SIZE {
                    return Err(CryptoError::BadSize(SizedPart::Both));
                }
                if bytes.len() != DILITHIUM_PK_SIZE {
                    return Err(CryptoError::BadSize(SizedPart::PublicKey));
                }
                if data.len() != DILITHIUM_SIG_SIZE {
                    return Err(CryptoError::BadSize(SizedPart::Signature));
                }
                let signed = concat_bytes(data.as_slice(), message);
                let opened = dilithium_open(signed.as_slice(), bytes.as_slice());
                Ok(opened_matches(opened, message))
            },
            Signature::SPHINCSPlus { data } => {
                let PublicKeyData::SPHINCSPlus { bytes } = public_key else {
                    return Err(CryptoError::WrongKeyVariant(SignatureAlgorithm::SPHINCSPlus));
                };
                if !sphincs_key_parses(bytes.as_slice()) {
                    return Err(CryptoError::ParseError(SignatureAlgorithm::SPHINCSPlus));
                }
                let signed = concat_bytes(data.as_slice(), message);
                let opened = sphincs_open(signed.as_slice(), bytes.as_slice());
                Ok(opened_matches(opened, message))
            },
            Signature::Hybrid { ecdsa, pq } => {
                let PublicKeyData::Hybrid { ecdsa: ecdsa_pk, pq: pq_pk } = public_key else {
                    return Err(CryptoError::WrongKeyVariant(SignatureAlgorithm::Hybrid));
                };
                let legs_ok = matches!(**ecdsa, Signature::ECDSA { .. })
                    && (matches!(**pq, Signature::Dilithium { .. }) || matches!(**pq, Signature::SPHINCSPlus { .. }))
                    && matches!(**ecdsa_pk, PublicKeyData::ECDSA { .. })
                    && (matches!(**pq_pk, PublicKeyData::Dilithium { .. }) || matches!(**pq_pk, PublicKeyData::SPHINCSPlus { .. }));
                if !legs_ok {
                    return Err(CryptoError::WrongKeyVariant(SignatureAlgorithm::Hybrid));
                }
                let a = ecdsa.verify(message, ecdsa_pk)?;
                let b = pq.verify(message, pq_pk)?;
                Ok(a && b)
            },
        }
    }
}

} // verus!
