use crate::crypto::{
    algorithm_of, sig_size, verify_outcome, Address, CryptoError, PublicKeyData, Signature,
    SignatureAlgorithm,
};
use crate::digest::{sha256, sha256_of};
use vstd::prelude::*;

verus! {

/// Number of base units in one whole coin (18 decimal places).
pub const COIN: u128 = 1_000_000_000_000_000_000;

/// Gas charged to every transaction.
pub const BASE_GAS: u64 = 21_000;

/// Gas charged per byte of payload.
pub const GAS_PER_DATA_BYTE: u64 = 16;

/// Largest transferable value: ten billion coins.
pub const MAX_VALUE: u128 = 10_000_000_000_000_000_000_000_000_000;

/// Bounds on a transaction's gas limit.
pub const MIN_GAS_LIMIT: u64 = 21_000;
pub const MAX_GAS_LIMIT: u64 = 10_000_000;

/// Largest payload accepted by the builder, in bytes.
pub const MAX_DATA_LEN: usize = 1_000_000;

/// Default gas price of the builder: 10^-6 coin.
pub const DEFAULT_GAS_PRICE: u128 = 1_000_000_000_000;

/// A transfer signed under one of the supported algorithms. `value` and
/// `gas_price` are counts of base units (10^-18 coin).
#[derive(Debug, Clone)]
pub struct Transaction {
    pub nonce: u64,
    pub from: Address,
    pub to: Address,
    pub value: u128,
    pub gas_limit: u64,
    pub gas_price: u128,
    pub data: Vec<u8>,
    pub signature: Signature,
    pub public_key: PublicKeyData,
    pub expiry: Option<u64>,
}

/// Why a transaction is rejected or cannot be built.
#[derive(Debug, Clone, Copy, PartialEq, Eq, Structural)]
pub enum TxError {
    NonceTooLow,
    NonceTooHigh,
    GasOverflow,
    FeeOverflow,
    ValueTooLarge,
    GasLimitTooLow,
    GasLimitTooHigh,
    DataTooLarge,
    BuildIncomplete,
}

impl TxError {
    /// A human-readable description of the error.
    pub fn message(&self) -> (r: String)
        ensures
            r@ == (match *self {
                TxError::NonceTooLow => "Nonce too low (already used)"@,
                TxError::NonceTooHigh => "Nonce too high (must be sequential)"@,
                TxError::GasOverflow => "Total gas cost overflow"@,
                TxError::FeeOverflow => "Fee overflow"@,
                TxError::ValueTooLarge => "Value exceeds max supply (10B IONX)"@,
                TxError::GasLimitTooLow => "Gas limit too low (min: 21,000)"@,
                TxError::GasLimitTooHigh => "Gas limit too high (max: 10M)"@,
                TxError::DataTooLarge => "Data too large (max: 1MB)"@,
                TxError::BuildIncomplete => "From and to addresses are required"@,
            }),
    {
        match self {
            TxError::NonceTooLow => "Nonce too low (already used)".to_string(),
            TxError::NonceTooHigh => "Nonce too high (must be sequential)".to_string(),
            TxError::GasOverflow => "Total gas cost overflow".to_string(),
            TxError::FeeOverflow => "Fee overflow".to_string(),
            TxError::ValueTooLarge => "Value exceeds max supply (10B IONX)".to_string(),
            TxError::GasLimitTooLow => "Gas limit too low (min: 21,000)".to_string(),
            TxError::GasLimitTooHigh => "Gas limit too high (max: 10M)".to_string(),
            TxError::DataTooLarge => "Data too large (max: 1MB)".to_string(),
            TxError::BuildIncomplete => "From and to addresses are required".to_string(),
        }
    }
}

/// The `n` low-order bytes of `x`, least significant first.
pub open spec fn le_bytes(x: nat, n: nat) -> Seq<u8>
    decreases n,
{
    if n == 0 {
        Seq::empty()
    } else {
        seq![(x % 256) as u8] + le_bytes(x / 256, (n - 1) as nat)
    }
}

/// The bytes a transaction's hash covers: nonce, value, gas limit, gas
/// price and payload. Signature and public key are left out.
pub open spec fn canonical_bytes(tx: Transaction) -> Seq<u8> {
    le_bytes(tx.nonce as nat, 8) + le_bytes(tx.value as nat, 16) + le_bytes(tx.gas_limit as nat, 8)
        + le_bytes(tx.gas_price as nat, 16) + tx.data@
}

/// Gas charged for verifying a signature of the given algorithm; the
/// post-quantum costs carry a migration subsidy of one half.
pub open spec fn sig_gas(alg: SignatureAlgorithm) -> int {
    match alg {
        SignatureAlgorithm::ECDSA => 3_000int,
        SignatureAlgorithm::Dilithium => 50_000int / 2,
        SignatureAlgorithm::SPHINCSPlus => 70_000int / 2,
        SignatureAlgorithm::Hybrid => 3_000int + 50_000int / 2,
    }
}

/// Total gas of a transaction, unbounded.
pub open spec fn gas_cost_of(tx: Transaction) -> int {
    BASE_GAS + sig_gas(algorithm_of(tx.signature)) + tx.data@.len() * GAS_PER_DATA_BYTE
}

/// Whether a transaction has expired at time `now`.
pub open spec fn expired_at(expiry: Option<u64>, now: u64) -> bool {
    match expiry {
        Some(e) => now > e,
        None => false,
    }
}

/// Appends the `n` low-order bytes of `x`, least significant first.
fn push_le(out: &mut Vec<u8>, x: u128, n: usize)
    ensures
        final(out)@ == old(out)@ + le_bytes(x as nat, n as nat),
    decreases n,
{
    if n == 0 {
        assert(old(out)@ + le_bytes(x as nat, 0) =~= old(out)@);
        return;
    }
    let ghost before = out@;
    out.push((x % 256) as u8);
    push_le(out, x / 256, n - 1);
    assert(before + le_bytes(x as nat, n as nat) =~= before.push((x % 256) as u8) + le_bytes(
        (x / 256) as nat,
        (n - 1) as nat,
    ));
}

/// Appends a byte string.
pub(crate) fn push_all(out: &mut Vec<u8>, bytes: &[u8])
    ensures
        final(out)@ == old(out)@ + bytes@,
{
    let mut i: usize = 0;
    while i < bytes.len()
        invariant
            0 <= i <= bytes@.len(),
            out@ == old(out)@ + bytes@.subrange(0, i as int),
        decreases bytes@.len() - i,
    {
        let ghost prev = out@;
        out.push(bytes[i]);
        assert(prev.push(bytes@[i as int]) =~= old(out)@ + bytes@.subrange(0, i + 1));
        i += 1;
    }
    assert(bytes@.subrange(0, bytes@.len() as int) =~= bytes@);
}

impl Transaction {
    /// The bytes this transaction's hash covers.
    pub fn canonical_encoding(&self) -> (r: Vec<u8>)
        ensures
            r@ == canonical_bytes(*self),
    {
        let mut out: Vec<u8> = Vec::new();
        push_le(&mut out, self.nonce as u128, 8);
        push_le(&mut out, self.value, 16);
        push_le(&mut out, self.gas_limit as u128, 8);
        push_le(&mut out, self.gas_price, 16);
        push_all(&mut out, self.data.as_slice());
        out
    }

    /// SHA-256 over the canonical fields.
    pub fn hash(&self) -> (r: [u8; 32])
        ensures
            r@ == sha256_of(canonical_bytes(*self)),
    {
        let bytes = self.canonical_encoding();
        sha256(bytes.as_slice())
    }

    /// Verifies the signature over the transaction hash.
    pub fn verify_signature(&self) -> (r: Result<bool, CryptoError>)
        requires
            sig_size(self.signature) + 32 <= usize::MAX,
        ensures
            r == verify_outcome(self.signature, sha256_of(canonical_bytes(*self)), self.public_key),
    {
        let message = self.hash();
        self.signature.verify(message.as_slice(), &self.public_key)
    }

    /// Gas charged for this transaction; fails with `GasOverflow` when the
    /// total does not fit in a `u64`.
    pub fn calculate_gas_cost(&self) -> (r: Result<u64, TxError>)
        ensures
            gas_cost_of(*self) <= u64::MAX ==> r == Ok::<u64, TxError>(gas_cost_of(*self) as u64),
            gas_cost_of(*self) > u64::MAX ==> r == Err::<u64, TxError>(TxError::GasOverflow),
    {
        let sig_gas: u64 = match self.signature.algorithm() {
            SignatureAlgorithm::ECDSA => 3_000,
            SignatureAlgorithm::Dilithium => 50_000 / 2,
            SignatureAlgorithm::SPHINCSPlus => 70_000 / 2,
            SignatureAlgorithm::Hybrid => 3_000 + 50_000 / 2,
        };
        let len = self.data.len() as u64;
        let data_gas = match len.checked_mul(GAS_PER_DATA_BYTE) {
            Some(g) => g,
            None => return Err(TxError::GasOverflow),
        };
        match BASE_GAS.checked_add(sig_gas) {
            Some(sum) => match sum.checked_add(data_gas) {
                Some(total) => Ok(total),
                None => Err(TxError::GasOverflow),
            },
            None => Err(TxError::GasOverflow),
        }
    }

    /// Fee of this transaction in base units: gas cost times gas price.
    pub fn calculate_fee(&self) -> (r: Result<u128, TxError>)
        ensures
            gas_cost_of(*self) > u64::MAX ==> r == Err::<u128, TxError>(TxError::GasOverflow),
            gas_cost_of(*self) <= u64::MAX && gas_cost_of(*self) * self.gas_price > u128::MAX
                ==> r == Err::<u128, TxError>(TxError::FeeOverflow),
            gas_cost_of(*self) <= u64::MAX && gas_cost_of(*self) * self.gas_price <= u128::MAX
                ==> r == Ok::<u128, TxError>((gas_cost_of(*self) * self.gas_price) as u128),
    {
        let gas = self.calculate_gas_cost()?;
        match (gas as u128).checked_mul(self.gas_price) {
            Some(fee) => Ok(fee),
            None => Err(TxError::FeeOverflow),
        }
    }

    /// Checks the nonce against the account's committed nonce: it must be equal.
    pub fn validate_nonce(&self, account_nonce: u64) -> (r: Result<(), TxError>)
        ensures
            self.nonce < account_nonce ==> r == Err::<(), TxError>(TxError::NonceTooLow),
            self.nonce > account_nonce ==> r == Err::<(), TxError>(TxError::NonceTooHigh),
            self.nonce == account_nonce ==> r is Ok,
    {
        if self.nonce < account_nonce {
            return Err(TxError::NonceTooLow);
        }
        if self.nonce > account_nonce {
            return Err(TxError::NonceTooHigh);
        }
        Ok(())
    }

    /// Whether the transaction has expired at Unix time `current_time`.
    pub fn is_expired(&self, current_time: u64) -> (r: bool)
        ensures
            r == expired_at(self.expiry, current_time),
    {
        match self.expiry {
            Some(expiry) => current_time > expiry,
            None => false,
        }
    }
}

/// The hash of a transaction does not depend on its signature or public
/// key: two transactions that agree on nonce, value, gas limit, gas price
/// and payload have the same hash, whatever they are signed with.
pub proof fn lemma_hash_ignores_signature(a: Transaction, b: Transaction)
    requires
        a.nonce == b.nonce,
        a.value == b.value,
        a.gas_limit == b.gas_limit,
        a.gas_price == b.gas_price,
        a.data@ == b.data@,
    ensures
        sha256_of(canonical_bytes(a)) == sha256_of(canonical_bytes(b)),
{
    assert(canonical_bytes(a) =~= canonical_bytes(b));
}

/// Step-by-step construction of a transaction with input validation.
#[derive(Debug, Clone)]
pub struct TransactionBuilder {
    pub nonce: u64,
    pub from: Option<Address>,
    pub to: Option<Address>,
    pub value: u128,
    pub gas_limit: u64,
    pub gas_price: u128,
    pub data: Vec<u8>,
    pub expiry: Option<u64>,
}

impl TransactionBuilder {
    /// A builder with zero nonce and value, the minimum gas limit, the
    /// default gas price, an empty payload and no addresses.
    pub fn new() -> (r: Self)
        ensures
            r.nonce == 0,
            r.from is None,
            r.to is None,
            r.value == 0,
            r.gas_limit == MIN_GAS_LIMIT,
            r.gas_price == DEFAULT_GAS_PRICE,
            r.data@.len() == 0,
            r.expiry is None,
    {
        TransactionBuilder {
            nonce: 0,
            from: None,
            to: None,
            value: 0,
            gas_limit: MIN_GAS_LIMIT,
            gas_price: DEFAULT_GAS_PRICE,
            data: Vec::new(),
            expiry: None,
        }
    }

    pub fn nonce(self, nonce: u64) -> (r: Self)
        ensures
            r == (TransactionBuilder { nonce, ..self }),
    {
        TransactionBuilder { nonce, ..self }
    }

    pub fn from(self, from: Address) -> (r: Self)
        ensures
            r == (TransactionBuilder { from: Some(from), ..self }),
    {
        TransactionBuilder { from: Some(from), ..self }
    }

    pub fn to(self, to: Address) -> (r: Self)
        ensures
            r == (TransactionBuilder { to: Some(to), ..self }),
    {
        TransactionBuilder { to: Some(to), ..self }
    }

    /// Sets the value; fails with `ValueTooLarge` above ten billion coins.
    pub fn value(self, value: u128) -> (r: Result<Self, TxError>)
        ensures
            value > MAX_VALUE ==> r == Err::<Self, TxError>(TxError::ValueTooLarge),
            value <= MAX_VALUE ==> r == Ok::<Self, TxError>(TransactionBuilder { value, ..self }),
    {
        if value > MAX_VALUE {
            return Err(TxError::ValueTooLarge);
        }
        Ok(TransactionBuilder { value, ..self })
    }

    /// Sets the gas limit; it must lie in [21 000, 10 000 000].
    pub fn gas_limit(self, gas_limit: u64) -> (r: Result<Self, TxError>)
        ensures
            gas_limit < MIN_GAS_LIMIT ==> r == Err::<Self, TxError>(TxError::GasLimitTooLow),
            gas_limit > MAX_GAS_LIMIT ==> r == Err::<Self, TxError>(TxError::GasLimitTooHigh),
            MIN_GAS_LIMIT <= gas_limit <= MAX_GAS_LIMIT ==> r == Ok::<Self, TxError>(
                TransactionBuilder { gas_limit, ..self },
            ),
    {
        if gas_limit < MIN_GAS_LIMIT {
            return Err(TxError::GasLimitTooLow);
        }
        if gas_limit > MAX_GAS_LIMIT {
            return Err(TxError::GasLimitTooHigh);
        }
        Ok(TransactionBuilder { gas_limit, ..self })
    }

    pub fn gas_price(self, gas_price: u128) -> (r: Self)
        ensures
            r == (TransactionBuilder { gas_price, ..self }),
    {
        TransactionBuilder { gas_price, ..self }
    }

    /// Sets the payload; fails with `DataTooLarge` above 1 000 000 bytes.
    pub fn data(self, data: Vec<u8>) -> (r: Result<Self, TxError>)
        ensures
            data@.len() > MAX_DATA_LEN ==> r == Err::<Self, TxError>(TxError::DataTooLarge),
            data@.len() <= MAX_DATA_LEN ==> r == Ok::<Self, TxError>(
                TransactionBuilder { data, ..self },
            ),
    {
        if data.len() > MAX_DATA_LEN {
            return Err(TxError::DataTooLarge);
        }
        Ok(TransactionBuilder { data, ..self })
    }

    pub fn expiry(self, expiry: u64) -> (r: Self)
        ensures
            r == (TransactionBuilder { expiry: Some(expiry), ..self }),
    {
        TransactionBuilder { expiry: Some(expiry), ..self }
    }

    /// Builds the transaction; fails with `BuildIncomplete` when either
    /// address is missing.
    pub fn build(self, signature: Signature, public_key: PublicKeyData) -> (r: Result<
        Transaction,
        TxError,
    >)
        ensures
            (self.from is None || self.to is None) ==> r == Err::<Transaction, TxError>(
                TxError::BuildIncomplete,
            ),
            (self.from is Some && self.to is Some) ==> r == Ok::<Transaction, TxError>(
                Transaction {
                    nonce: self.nonce,
                    from: self.from->0,
                    to: self.to->0,
                    value: self.value,
                    gas_limit: self.gas_limit,
                    gas_price: self.gas_price,
                    data: self.data,
                    signature,
                    public_key,
                    expiry: self.expiry,
                },
            ),
    {
        match (self.from, self.to) {
            (Some(from), Some(to)) => Ok(
                Transaction {
                    nonce: self.nonce,
                    from,
                    to,
                    value: self.value,
                    gas_limit: self.gas_limit,
                    gas_price: self.gas_price,
                    data: self.data,
                    signature,
                    public_key,
                    expiry: self.expiry,
                },
            ),
            _ => Err(TxError::BuildIncomplete),
        }
    }
}

} // verus!
