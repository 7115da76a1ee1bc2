use crate::digest::{hex_chars, sha256, sha256_of, to_hex_string};
use crate::genesis::{append_decimal, decimal_chars};
use crate::table::{entries_model, has_key, lookup, put, AddressTable};
use crate::clock::unix_now;
use vstd::prelude::*;
use vstd::string::StringExecFns;
use vstd::utf8::encode_utf8;

verus! {

/// Seconds a transaction hash stays in the replay cache.
pub const REPLAY_WINDOW_SECS: u64 = 3600;

/// Seconds an idle account stays in the rate-limit table.
pub const RATE_LIMIT_IDLE_SECS: u64 = 10;

/// Limits enforced by the security validator.
#[derive(Debug, Clone, Copy)]
pub struct SecurityConfig {
    pub max_tx_per_block: usize,
    pub max_block_size: usize,
    pub min_gas_price: u64,
    pub max_gas_per_tx: u64,
    pub rate_limit_tx_per_sec: u32,
    pub enable_replay_protection: bool,
    pub enable_ddos_protection: bool,
    pub max_nonce_gap: u64,
}

impl SecurityConfig {
    /// Ten thousand transactions and ten megabytes per block, a minimum gas
    /// price of one million, at most ten million gas per transaction, one
    /// hundred transactions per account and second, both protections on,
    /// and a nonce gap of one hundred.
    pub fn new() -> (r: Self)
        ensures
            r.max_tx_per_block == 10_000,
            r.max_block_size == 10_000_000,
            r.min_gas_price == 1_000_000,
            r.max_gas_per_tx == 10_000_000,
            r.rate_limit_tx_per_sec == 100,
            r.enable_replay_protection,
            r.enable_ddos_protection,
            r.max_nonce_gap == 100,
    {
        SecurityConfig {
            max_tx_per_block: 10_000,
            max_block_size: 10_000_000,
            min_gas_price: 1_000_000,
            max_gas_per_tx: 10_000_000,
            rate_limit_tx_per_sec: 100,
            enable_replay_protection: true,
            enable_ddos_protection: true,
            max_nonce_gap: 100,
        }
    }
}

impl Default for SecurityConfig {
    fn default() -> (r: Self)
        ensures
            r.max_tx_per_block == 10_000,
            r.rate_limit_tx_per_sec == 100,
            r.max_nonce_gap == 100,
    {
        SecurityConfig::new()
    }
}

/// A transaction as the security validator sees it.
#[derive(Debug, Clone)]
pub struct Transaction {
    pub hash: String,
    pub from: String,
    pub to: String,
    pub value: u64,
    pub nonce: u64,
    pub gas_price: u64,
    pub gas_limit: u64,
    pub signature: Vec<u8>,
    pub data: Vec<u8>,
}

/// A proposed block as the security validator sees it.
#[derive(Debug, Clone)]
pub struct Block {
    pub height: u64,
    pub hash: String,
    pub previous_hash: String,
    pub timestamp: u64,
    pub transactions: Vec<Transaction>,
}

/// Why the security validator rejected a transaction or block.
#[derive(Debug, Clone, Copy, PartialEq, Eq, Structural)]
pub enum SecurityError {
    InvalidSignature,
    ReplayAttack,
    NonceTooLow,
    NonceGap,
    InsufficientGasPrice,
    ExcessiveGas,
    RateLimitExceeded,
    InvalidHash,
    BlockTooLarge,
    TooManyTransactions,
    InvalidBlockHash,
}

impl SecurityError {
    /// A human-readable description of the error.
    pub fn message(&self) -> (r: String)
        ensures
            r@ == (match *self {
                SecurityError::InvalidSignature => "Invalid signature"@,
                SecurityError::ReplayAttack => "Replay attack detected"@,
                SecurityError::NonceTooLow => "Invalid nonce: too low"@,
                SecurityError::NonceGap => "Invalid nonce: gap too large"@,
                SecurityError::InsufficientGasPrice => "Insufficient gas price"@,
                SecurityError::ExcessiveGas => "Excessive gas"@,
                SecurityError::RateLimitExceeded => "Rate limit exceeded"@,
                SecurityError::InvalidHash => "Invalid hash: transaction hash mismatch"@,
                SecurityError::BlockTooLarge => "Block too large"@,
                SecurityError::TooManyTransactions => "Too many transactions"@,
                SecurityError::InvalidBlockHash => "Invalid block hash"@,
            }),
    {
        match self {
            SecurityError::InvalidSignature => "Invalid signature".to_string(),
            SecurityError::ReplayAttack => "Replay attack detected".to_string(),
            SecurityError::NonceTooLow => "Invalid nonce: too low".to_string(),
            SecurityError::NonceGap => "Invalid nonce: gap too large".to_string(),
            SecurityError::InsufficientGasPrice => "Insufficient gas price".to_string(),
            SecurityError::ExcessiveGas => "Excessive gas".to_string(),
            SecurityError::RateLimitExceeded => "Rate limit exceeded".to_string(),
            SecurityError::InvalidHash => "Invalid hash: transaction hash mismatch".to_string(),
            SecurityError::BlockTooLarge => "Block too large".to_string(),
            SecurityError::TooManyTransactions => "Too many transactions".to_string(),
            SecurityError::InvalidBlockHash => "Invalid block hash".to_string(),
        }
    }
}

/// Replay cache, nonce tracking and rate limiting for one shard.
#[derive(Debug, Clone)]
pub struct SecurityValidator {
    pub config: SecurityConfig,
    /// Last accepted nonce per sender.
    pub nonce_tracker: AddressTable<u64>,
    /// Seen transaction hashes, with the time they were seen.
    pub tx_hash_tracker: AddressTable<u64>,
    /// Per sender: transactions counted in the current window, and the window's start.
    pub rate_limiter: AddressTable<(u32, u64)>,
}

/// Whether a record stamped `ts` is younger than `age` seconds at `now`.
pub open spec fn recent(ts: u64, now: u64, age: u64) -> bool {
    now < ts || now - ts < age
}

/// The characters a transaction's hash covers.
pub open spec fn tx_hash_input(tx: Transaction) -> Seq<char> {
    tx.from@ + tx.to@ + decimal_chars(tx.value as nat) + decimal_chars(tx.nonce as nat)
        + decimal_chars(tx.gas_price as nat) + decimal_chars(tx.gas_limit as nat)
}

/// A transaction's canonical hash: SHA-256 of the UTF-8 of its hash input, in hexadecimal.
pub open spec fn tx_hash_of(tx: Transaction) -> Seq<char> {
    hex_chars(sha256_of(encode_utf8(tx_hash_input(tx))))
}

/// The declared hashes of a list of transactions, one after another.
pub open spec fn joined_hashes(txs: Seq<Transaction>) -> Seq<char>
    decreases txs.len(),
{
    if txs.len() == 0 {
        Seq::empty()
    } else {
        joined_hashes(txs.drop_last()) + txs.last().hash@
    }
}

/// The characters a block's hash covers.
pub open spec fn block_hash_input(b: Block) -> Seq<char> {
    decimal_chars(b.height as nat) + b.previous_hash@ + decimal_chars(b.timestamp as nat)
        + joined_hashes(b.transactions@)
}

/// A block's canonical hash, in hexadecimal.
pub open spec fn block_hash_of(b: Block) -> Seq<char> {
    hex_chars(sha256_of(encode_utf8(block_hash_input(b))))
}

/// Size estimate of a block: two hundred bytes per transaction and a thousand more.
pub open spec fn block_size_of(b: Block) -> int {
    b.transactions@.len() * 200int + 1000
}

/// The nonce last accepted from `from`, zero for a new sender.
pub open spec fn nonce_of(t: Seq<(Seq<char>, u64)>, from: Seq<char>) -> u64 {
    match lookup(t, from) {
        Some(n) => n,
        None => 0,
    }
}

/// The rate-limit record of `addr` after one more transaction at `now`:
/// a new window when the old one is a second or more behind, else one more
/// in the old one.
pub open spec fn rate_after(t: Seq<(Seq<char>, (u32, u64))>, addr: Seq<char>, now: u64) -> (int, u64) {
    let (count, ts) = match lookup(t, addr) {
        Some(e) => e,
        None => (0u32, now),
    };
    if now >= ts && now - ts >= 1 {
        (1, now)
    } else {
        (count + 1, ts)
    }
}

/// Whether `nonce` from `from` is accepted against tracker `t`: at or
/// above the last accepted nonce, and at most `gap` above it.
pub open spec fn nonce_accepted(t: Seq<(Seq<char>, u64)>, from: Seq<char>, nonce: u64, gap: u64) -> bool {
    nonce_of(t, from) <= nonce && nonce - nonce_of(t, from) <= gap
}

/// The tracker after `nonces` from `from` are offered in turn, each
/// accepted one being recorded.
pub open spec fn nonce_run(t: Seq<(Seq<char>, u64)>, from: Seq<char>, nonces: Seq<u64>, gap: u64) -> Seq<(Seq<char>, u64)>
    decreases nonces.len(),
{
    if nonces.len() == 0 {
        t
    } else {
        let u = nonce_run(t, from, nonces.drop_last(), gap);
        if nonce_accepted(u, from, nonces.last(), gap) {
            put(u, from, nonces.last())
        } else {
            u
        }
    }
}

/// The nonces accepted, in order, when `nonces` are offered in turn.
pub open spec fn accepted_nonces(t: Seq<(Seq<char>, u64)>, from: Seq<char>, nonces: Seq<u64>, gap: u64) -> Seq<u64>
    decreases nonces.len(),
{
    if nonces.len() == 0 {
        Seq::empty()
    } else {
        let u = nonce_run(t, from, nonces.drop_last(), gap);
        let before = accepted_nonces(t, from, nonces.drop_last(), gap);
        if nonce_accepted(u, from, nonces.last(), gap) {
            before.push(nonces.last())
        } else {
            before
        }
    }
}

/// For any nonces an account offers in turn, the accepted ones
/// never decrease, each lies at most `gap` above the one accepted before it
/// (or above the account's starting nonce), and the tracker ends on the
/// last accepted one.
pub proof fn lemma_nonces_non_decreasing(t: Seq<(Seq<char>, u64)>, from: Seq<char>, nonces: Seq<u64>, gap: u64)
    ensures
        ({
            let a = accepted_nonces(t, from, nonces, gap);
            &&& forall|i: int, j: int| 0 <= i < j < a.len() ==> a[i] <= a[j]
            &&& forall|i: int| 0 < i < a.len() ==> #[trigger] a[i] - a[i - 1] <= gap
            &&& a.len() > 0 ==> nonce_of(t, from) <= a[0] && a[0] - nonce_of(t, from) <= gap
            &&& a.len() > 0 ==> nonce_of(nonce_run(t, from, nonces, gap), from) == a.last()
            &&& a.len() == 0 ==> nonce_of(nonce_run(t, from, nonces, gap), from) == nonce_of(t, from)
        }),
    decreases nonces.len(),
{
    if nonces.len() > 0 {
        let prefix = nonces.drop_last();
        lemma_nonces_non_decreasing(t, from, prefix, gap);
        let u = nonce_run(t, from, prefix, gap);
        let n = nonces.last();
        if nonce_accepted(u, from, n, gap) {
            crate::table::lemma_lookup_put(u, from, n);
        }
    }
}

/// The first check a transaction fails at `now`, if any.
pub open spec fn tx_outcome(v: SecurityValidator, tx: Transaction, now: u64) -> Result<(), SecurityError> {
    let current = nonce_of(v.nonce_tracker.model(), tx.from@);
    if tx.signature@.len() != 65 {
        Err(SecurityError::InvalidSignature)
    } else if v.config.enable_replay_protection && has_key(v.tx_hash_tracker.model(), tx_hash_of(tx)) {
        Err(SecurityError::ReplayAttack)
    } else if tx.nonce < current {
        Err(SecurityError::NonceTooLow)
    } else if tx.nonce - current > v.config.max_nonce_gap {
        Err(SecurityError::NonceGap)
    } else if tx.gas_price < v.config.min_gas_price {
        Err(SecurityError::InsufficientGasPrice)
    } else if tx.gas_limit > v.config.max_gas_per_tx {
        Err(SecurityError::ExcessiveGas)
    } else if v.config.enable_ddos_protection && rate_after(v.rate_limiter.model(), tx.from@, now).0
        > v.config.rate_limit_tx_per_sec {
        Err(SecurityError::RateLimitExceeded)
    } else if tx.hash@ != tx_hash_of(tx) {
        Err(SecurityError::InvalidHash)
    } else {
        Ok(())
    }
}

/// Whether an entry is stamped less than `age` seconds before `now`.
pub open spec fn recent_entry(now: u64, age: u64) -> spec_fn((Seq<char>, u64)) -> bool {
    |e: (Seq<char>, u64)| recent(e.1, now, age)
}

/// Whether a rate-limit window started less than `age` seconds before `now`.
pub open spec fn recent_window(now: u64, age: u64) -> spec_fn((Seq<char>, (u32, u64))) -> bool {
    |e: (Seq<char>, (u32, u64))| recent(e.1.1, now, age)
}

/// The entries of `t` stamped less than `age` seconds before `now`.
pub open spec fn swept(t: Seq<(Seq<char>, u64)>, now: u64, age: u64) -> Seq<(Seq<char>, u64)> {
    t.filter(recent_entry(now, age))
}

/// What validating `tx` at `now` does: the result is the first check that
/// fails, and a failure changes nothing; an accepted transaction is recorded
/// in the replay cache (when enabled), as the sender's last nonce, and in the
/// sender's rate window (when enabled).
pub open spec fn validated(
    before: SecurityValidator,
    after: SecurityValidator,
    tx: Transaction,
    now: u64,
    r: Result<(), SecurityError>,
) -> bool {
    let next = rate_after(before.rate_limiter.model(), tx.from@, now);
    &&& r == tx_outcome(before, tx, now)
    &&& r is Err ==> after == before
    &&& r is Ok ==> {
        &&& after.config == before.config
        &&& after.tx_hash_tracker.model() == if before.config.enable_replay_protection {
            replay_after(before.tx_hash_tracker.model(), tx_hash_of(tx), now)
        } else {
            before.tx_hash_tracker.model()
        }
        &&& after.nonce_tracker.model() == put(before.nonce_tracker.model(), tx.from@, tx.nonce)
        &&& after.rate_limiter.model() == if before.config.enable_ddos_protection {
            put(before.rate_limiter.model(), tx.from@, (next.0 as u32, next.1))
        } else {
            before.rate_limiter.model()
        }
    }
}

/// Whether `states` are the successive states of a validator over calls
/// validating `txs` at `times`, which returned `results`.
pub open spec fn validation_run(
    states: Seq<SecurityValidator>,
    txs: Seq<Transaction>,
    times: Seq<u64>,
    results: Seq<Result<(), SecurityError>>,
) -> bool {
    &&& states.len() == txs.len() + 1
    &&& times.len() == txs.len()
    &&& results.len() == txs.len()
    &&& forall|i: int| 0 <= i < txs.len() ==> #[trigger] validated(states[i], states[i + 1], txs[i], times[i], results[i])
}

/// The nonces, in call order, of the transactions from `a` that were accepted.
pub open spec fn accepted_from(txs: Seq<Transaction>, results: Seq<Result<(), SecurityError>>, a: Seq<char>) -> Seq<u64>
    decreases txs.len(),
{
    if txs.len() == 0 || results.len() != txs.len() {
        Seq::empty()
    } else {
        let rest = accepted_from(txs.drop_last(), results.drop_last(), a);
        if results.last() is Ok && txs.last().from@ == a {
            rest.push(txs.last().nonce)
        } else {
            rest
        }
    }
}

/// Over any run of validations, the nonces accepted from one account never
/// decrease, each lies at most `max_nonce_gap` above the one accepted
/// before it (the first above the account's starting nonce), and the
/// tracker ends on the last accepted one.
pub proof fn lemma_validation_nonces(
    states: Seq<SecurityValidator>,
    txs: Seq<Transaction>,
    times: Seq<u64>,
    results: Seq<Result<(), SecurityError>>,
    a: Seq<char>,
)
    requires
        validation_run(states, txs, times, results),
    ensures
        ({
            let acc = accepted_from(txs, results, a);
            let gap = states[0].config.max_nonce_gap;
            let start = nonce_of(states[0].nonce_tracker.model(), a);
            let end = nonce_of(states.last().nonce_tracker.model(), a);
            &&& states.last().config == states[0].config
            &&& forall|i: int, j: int| 0 <= i < j < acc.len() ==> acc[i] <= acc[j]
            &&& forall|i: int| 0 < i < acc.len() ==> #[trigger] acc[i] - acc[i - 1] <= gap
            &&& acc.len() > 0 ==> start <= acc[0] && acc[0] - start <= gap
            &&& acc.len() > 0 ==> end == acc.last()
            &&& acc.len() == 0 ==> end == start
        }),
    decreases txs.len(),
{
    if txs.len() > 0 {
        let n = (txs.len() - 1) as int;
        let ps = states.drop_last();
        assert forall|i: int| 0 <= i < n implies #[trigger] validated(ps[i], ps[i + 1], txs.drop_last()[i], times.drop_last()[i], results.drop_last()[i]) by {
            assert(validated(states[i], states[i + 1], txs[i], times[i], results[i]));
        }
        lemma_validation_nonces(ps, txs.drop_last(), times.drop_last(), results.drop_last(), a);
        assert(validated(states[n], states[n + 1], txs[n], times[n], results[n]));
        let before = states[n];
        let after = states[n + 1];
        let tx = txs[n];
        assert(ps.last() == before);
        if results[n] is Ok {
            if tx.from@ == a {
                crate::table::lemma_lookup_put(before.nonce_tracker.model(), a, tx.nonce);
            } else {
                crate::table::lemma_put_other(before.nonce_tracker.model(), tx.from@, tx.nonce, a);
            }
        }
    }
}

/// The replay cache after recording `h` at `now` and sweeping old hashes.
pub open spec fn replay_after(t: Seq<(Seq<char>, u64)>, h: Seq<char>, now: u64) -> Seq<(Seq<char>, u64)> {
    swept(put(t, h, now), now, REPLAY_WINDOW_SECS)
}

/// The entries of `t` stamped less than `age` seconds before `now`.
fn retain_recent(t: &AddressTable<u64>, now: u64, age: u64) -> (r: AddressTable<u64>)
    ensures
        r.model() == swept(t.model(), now, age),
{
    let ghost pred = recent_entry(now, age);
    let mut kept: Vec<(String, u64)> = Vec::new();
    let mut i: usize = 0;
    while i < t.entries.len()
        invariant
            0 <= i <= t.entries@.len(),
            pred == recent_entry(now, age),
            entries_model(kept@) == t.model().subrange(0, i as int).filter(pred),
        decreases t.entries@.len() - i,
    {
        assert(t.model().subrange(0, i + 1) =~= t.model().subrange(0, i as int).push(t.model()[i as int]));
        proof {
            t.model().subrange(0, i as int).lemma_filter_push(t.model()[i as int], pred);
        }
        let ts = t.entries[i].1;
        assert(t.model()[i as int].1 == ts);
        assert(pred(t.model()[i as int]) == (now < ts || now - ts < age));
        if now < ts || now - ts < age {
            let ghost prev = kept@;
            kept.push((t.entries[i].0.clone(), ts));
            assert(entries_model(kept@) =~= entries_model(prev).push(t.model()[i as int]));
        }
        i += 1;
    }
    assert(t.model().subrange(0, i as int) =~= t.model());
    AddressTable { entries: kept }
}

/// The rate-limit records whose window started less than `age` seconds before `now`.
fn retain_recent_windows(t: &AddressTable<(u32, u64)>, now: u64, age: u64) -> (r: AddressTable<(u32, u64)>)
    ensures
        r.model() == t.model().filter(recent_window(now, age)),
{
    let ghost pred = recent_window(now, age);
    let mut kept: Vec<(String, (u32, u64))> = Vec::new();
    let mut i: usize = 0;
    while i < t.entries.len()
        invariant
            0 <= i <= t.entries@.len(),
            pred == recent_window(now, age),
            entries_model(kept@) == t.model().subrange(0, i as int).filter(pred),
        decreases t.entries@.len() - i,
    {
        assert(t.model().subrange(0, i + 1) =~= t.model().subrange(0, i as int).push(t.model()[i as int]));
        proof {
            t.model().subrange(0, i as int).lemma_filter_push(t.model()[i as int], pred);
        }
        let rec = t.entries[i].1;
        assert(t.model()[i as int].1 == rec);
        assert(pred(t.model()[i as int]) == (now < rec.1 || now - rec.1 < age));
        if now < rec.1 || now - rec.1 < age {
            let ghost prev = kept@;
            kept.push((t.entries[i].0.clone(), rec));
            assert(entries_model(kept@) =~= entries_model(prev).push(t.model()[i as int]));
        }
        i += 1;
    }
    assert(t.model().subrange(0, i as int) =~= t.model());
    AddressTable { entries: kept }
}

impl SecurityValidator {
    /// A validator with empty tables.
    pub fn new(config: SecurityConfig) -> (r: Self)
        ensures
            r.config == config,
            r.nonce_tracker.model().len() == 0,
            r.tx_hash_tracker.model().len() == 0,
            r.rate_limiter.model().len() == 0,
    {
        SecurityValidator {
            config,
            nonce_tracker: AddressTable::new(),
            tx_hash_tracker: AddressTable::new(),
            rate_limiter: AddressTable::new(),
        }
    }

    /// The canonical hash of a transaction, in hexadecimal.
    pub fn calculate_tx_hash(&self, tx: &Transaction) -> (r: String)
        ensures
            r@ == tx_hash_of(*tx),
    {
        let mut input = tx.from.clone();
        input.append(tx.to.as_str());
        append_decimal(&mut input, tx.value);
        append_decimal(&mut input, tx.nonce);
        append_decimal(&mut input, tx.gas_price);
        append_decimal(&mut input, tx.gas_limit);
        assert(input@ =~= tx_hash_input(*tx));
        let digest = sha256(input.as_str().as_bytes());
        to_hex_string(digest.as_slice())
    }

    /// The canonical hash of a block, in hexadecimal.
    pub fn calculate_block_hash(&self, block: &Block) -> (r: String)
        ensures
            r@ == block_hash_of(*block),
    {
        let mut input = String::new();
        append_decimal(&mut input, block.height);
        input.append(block.previous_hash.as_str());
        append_decimal(&mut input, block.timestamp);
        let ghost head = input@;
        let mut i: usize = 0;
        while i < block.transactions.len()
            invariant
                0 <= i <= block.transactions@.len(),
                input@ == head + joined_hashes(block.transactions@.subrange(0, i as int)),
            decreases block.transactions@.len() - i,
        {
            assert(block.transactions@.subrange(0, i + 1).drop_last() =~= block.transactions@.subrange(0, i as int));
            input.append(block.transactions[i].hash.as_str());
            i += 1;
        }
        assert(block.transactions@.subrange(0, i as int) =~= block.transactions@);
        assert(input@ =~= block_hash_input(*block));
        let digest = sha256(input.as_str().as_bytes());
        to_hex_string(digest.as_slice())
    }

    /// Rejects a missing or wrongly sized ECDSA signature envelope.
    pub fn validate_signature(&self, tx: &Transaction) -> (r: Result<(), SecurityError>)
        ensures
            r == if tx.signature@.len() != 65 {
                Err::<(), SecurityError>(SecurityError::InvalidSignature)
            } else {
                Ok(())
            },
    {
        if tx.signature.len() == 0 || tx.signature.len() != 65 {
            return Err(SecurityError::InvalidSignature);
        }
        Ok(())
    }

    /// Rejects a transaction whose hash is in the replay cache; otherwise
    /// records it at `now` and sweeps hashes older than an hour.
    pub fn check_replay_attack_at(&mut self, tx: &Transaction, now: u64) -> (r: Result<(), SecurityError>)
        ensures
            has_key(old(self).tx_hash_tracker.model(), tx_hash_of(*tx)) ==> r == Err::<(), SecurityError>(
                SecurityError::ReplayAttack) && *final(self) == *old(self),
            !has_key(old(self).tx_hash_tracker.model(), tx_hash_of(*tx)) ==> r is Ok
                && final(self).tx_hash_tracker.model() == replay_after(old(self).tx_hash_tracker.model(), tx_hash_of(*tx), now)
                && final(self).nonce_tracker == old(self).nonce_tracker
                && final(self).rate_limiter == old(self).rate_limiter
                && final(self).config == old(self).config,
    {
        let tx_hash = self.calculate_tx_hash(tx);
        if self.tx_hash_tracker.contains_key(tx_hash.as_str()) {
            return Err(SecurityError::ReplayAttack);
        }
        self.tx_hash_tracker.insert(tx_hash, now);
        self.tx_hash_tracker = retain_recent(&self.tx_hash_tracker, now, REPLAY_WINDOW_SECS);
        Ok(())
    }

    /// Accepts a nonce within `max_nonce_gap` at or above the sender's last
    /// accepted one, and records it; rejects lower nonces and larger gaps.
    pub fn validate_nonce(&mut self, tx: &Transaction) -> (r: Result<(), SecurityError>)
        ensures
            ({
                let current = nonce_of(old(self).nonce_tracker.model(), tx.from@);
                &&& tx.nonce < current ==> r == Err::<(), SecurityError>(SecurityError::NonceTooLow)
                &&& tx.nonce >= current && tx.nonce - current > old(self).config.max_nonce_gap
                    ==> r == Err::<(), SecurityError>(SecurityError::NonceGap)
                &&& r is Ok <==> nonce_accepted(old(self).nonce_tracker.model(), tx.from@, tx.nonce, old(self).config.max_nonce_gap)
                &&& r is Ok ==> final(self).nonce_tracker.model() == put(old(self).nonce_tracker.model(), tx.from@, tx.nonce)
                    && nonce_of(final(self).nonce_tracker.model(), tx.from@) == tx.nonce
                    && nonce_of(final(self).nonce_tracker.model(), tx.from@) >= current
                &&& r is Err ==> final(self).nonce_tracker == old(self).nonce_tracker
                &&& final(self).tx_hash_tracker == old(self).tx_hash_tracker
                &&& final(self).rate_limiter == old(self).rate_limiter
                &&& final(self).config == old(self).config
            }),
    {
        let current = match self.nonce_tracker.get(tx.from.as_str()) {
            Some(n) => *n,
            None => 0,
        };
        if tx.nonce < current {
            return Err(SecurityError::NonceTooLow);
        }
        if tx.nonce - current > self.config.max_nonce_gap {
            return Err(SecurityError::NonceGap);
        }
        self.nonce_tracker.insert(tx.from.clone(), tx.nonce);
        proof {
            crate::table::lemma_lookup_put(old(self).nonce_tracker.model(), tx.from@, tx.nonce);
        }
        Ok(())
    }

    /// Rejects a gas price under the minimum or a gas limit over the maximum.
    pub fn validate_gas(&self, tx: &Transaction) -> (r: Result<(), SecurityError>)
        ensures
            r == if tx.gas_price < self.config.min_gas_price {
                Err::<(), SecurityError>(SecurityError::InsufficientGasPrice)
            } else if tx.gas_limit > self.config.max_gas_per_tx {
                Err::<(), SecurityError>(SecurityError::ExcessiveGas)
            } else {
                Ok(())
            },
    {
        if tx.gas_price < self.config.min_gas_price {
            return Err(SecurityError::InsufficientGasPrice);
        }
        if tx.gas_limit > self.config.max_gas_per_tx {
            return Err(SecurityError::ExcessiveGas);
        }
        Ok(())
    }

    /// Counts one transaction from `address` at `now` in its one-second
    /// window, and rejects it when the window then holds more than the limit.
    pub fn check_rate_limit_at(&mut self, address: &str, now: u64) -> (r: Result<(), SecurityError>)
        ensures
            ({
                let next = rate_after(old(self).rate_limiter.model(), address@, now);
                &&& next.0 > old(self).config.rate_limit_tx_per_sec ==> r == Err::<(), SecurityError>(
                    SecurityError::RateLimitExceeded) && *final(self) == *old(self)
                &&& next.0 <= old(self).config.rate_limit_tx_per_sec ==> r is Ok
                    && final(self).rate_limiter.model() == put(old(self).rate_limiter.model(), address@,
                        (next.0 as u32, next.1))
                    && final(self).nonce_tracker == old(self).nonce_tracker
                    && final(self).tx_hash_tracker == old(self).tx_hash_tracker
                    && final(self).config == old(self).config
            }),
    {
        let (count, timestamp) = match self.rate_limiter.get(address) {
            Some(e) => *e,
            None => (0u32, now),
        };
        let (new_count, new_timestamp) = if now >= timestamp && now - timestamp >= 1 {
            (1u32, now)
        } else {
            if count >= self.config.rate_limit_tx_per_sec {
                return Err(SecurityError::RateLimitExceeded);
            }
            (count + 1, timestamp)
        };
        if new_count > self.config.rate_limit_tx_per_sec {
            return Err(SecurityError::RateLimitExceeded);
        }
        self.rate_limiter.insert(address.to_owned(), (new_count, new_timestamp));
        Ok(())
    }

    /// `check_rate_limit_at` at the current time.
    pub fn check_rate_limit(&mut self, address: &str) -> (r: Result<(), SecurityError>)
        ensures
            exists|now: u64| {
                let next = #[trigger] rate_after(old(self).rate_limiter.model(), address@, now);
                &&& next.0 > old(self).config.rate_limit_tx_per_sec ==> r == Err::<(), SecurityError>(
                    SecurityError::RateLimitExceeded) && *final(self) == *old(self)
                &&& next.0 <= old(self).config.rate_limit_tx_per_sec ==> r is Ok
                    && final(self).rate_limiter.model() == put(old(self).rate_limiter.model(), address@,
                        (next.0 as u32, next.1))
            },
    {
        let now = unix_now();
        self.check_rate_limit_at(address, now)
    }

    /// Checks a transaction's hash against the canonical recomputation.
    pub fn validate_tx_hash(&self, tx: &Transaction) -> (r: Result<(), SecurityError>)
        ensures
            r == if tx.hash@ != tx_hash_of(*tx) {
                Err::<(), SecurityError>(SecurityError::InvalidHash)
            } else {
                Ok(())
            },
    {
        let calculated = self.calculate_tx_hash(tx);
        if tx.hash != calculated {
            return Err(SecurityError::InvalidHash);
        }
        Ok(())
    }

    /// The rate-limit record `address` would have after one more
    /// transaction at `now`, or the refusal when that exceeds the limit.
    fn rate_record(&self, address: &str, now: u64) -> (r: Result<(u32, u64), SecurityError>)
        ensures
            ({
                let next = rate_after(self.rate_limiter.model(), address@, now);
                &&& next.0 > self.config.rate_limit_tx_per_sec ==> r == Err::<(u32, u64), SecurityError>(SecurityError::RateLimitExceeded)
                &&& next.0 <= self.config.rate_limit_tx_per_sec ==> r == Ok::<(u32, u64), SecurityError>((next.0 as u32, next.1))
            }),
    {
        let (count, timestamp) = match self.rate_limiter.get(address) {
            Some(e) => *e,
            None => (0u32, now),
        };
        if now >= timestamp && now - timestamp >= 1 {
            if 1 > self.config.rate_limit_tx_per_sec {
                return Err(SecurityError::RateLimitExceeded);
            }
            Ok((1u32, now))
        } else {
            if count >= self.config.rate_limit_tx_per_sec {
                return Err(SecurityError::RateLimitExceeded);
            }
            Ok((count + 1, timestamp))
        }
    }

    /// Runs every transaction check at time `now`, in order: signature
    /// envelope, replay cache (if enabled), nonce, gas, rate limit (if
    /// enabled), hash. Fails with the first check that fails and then
    /// changes nothing. A transaction that passes them all is recorded: its
    /// hash in the replay cache (swept of hashes older than an hour), its
    /// nonce as the sender's last, and one more transaction in the sender's
    /// rate window.
    pub fn validate_transaction_at(&mut self, tx: &Transaction, now: u64) -> (r: Result<(), SecurityError>)
        ensures
            validated(*old(self), *final(self), *tx, now, r),
    {
        self.validate_signature(tx)?;
        let tx_hash = self.calculate_tx_hash(tx);
        if self.config.enable_replay_protection && self.tx_hash_tracker.contains_key(tx_hash.as_str()) {
            return Err(SecurityError::ReplayAttack);
        }
        let current = match self.nonce_tracker.get(tx.from.as_str()) {
            Some(n) => *n,
            None => 0,
        };
        if tx.nonce < current {
            return Err(SecurityError::NonceTooLow);
        }
        if tx.nonce - current > self.config.max_nonce_gap {
            return Err(SecurityError::NonceGap);
        }
        self.validate_gas(tx)?;
        let window = if self.config.enable_ddos_protection {
            Some(self.rate_record(tx.from.as_str(), now)?)
        } else {
            None
        };
        self.validate_tx_hash(tx)?;
        if self.config.enable_replay_protection {
            self.tx_hash_tracker.insert(tx_hash, now);
            self.tx_hash_tracker = retain_recent(&self.tx_hash_tracker, now, REPLAY_WINDOW_SECS);
        }
        self.nonce_tracker.insert(tx.from.clone(), tx.nonce);
        match window {
            Some(record) => self.rate_limiter.insert(tx.from.clone(), record),
            None => {},
        }
        Ok(())
    }

    /// `validate_transaction_at` at the current time.
    pub fn validate_transaction(&mut self, tx: &Transaction) -> (r: Result<(), SecurityError>)
        ensures
            exists|now: u64| #[trigger] validated(*old(self), *final(self), *tx, now, r),
    {
        let now = unix_now();
        self.validate_transaction_at(tx, now)
    }

    /// Checks a block's size estimate, transaction count and hash.
    pub fn validate_block(&self, block: &Block) -> (r: Result<(), SecurityError>)
        ensures
            r == if block_size_of(*block) > self.config.max_block_size {
                Err::<(), SecurityError>(SecurityError::BlockTooLarge)
            } else if block.transactions@.len() > self.config.max_tx_per_block {
                Err::<(), SecurityError>(SecurityError::TooManyTransactions)
            } else if block.hash@ != block_hash_of(*block) {
                Err::<(), SecurityError>(SecurityError::InvalidBlockHash)
            } else {
                Ok(())
            },
    {
        let size = block.transactions.len() as u128 * 200 + 1000;
        if size > self.config.max_block_size as u128 {
            return Err(SecurityError::BlockTooLarge);
        }
        if block.transactions.len() > self.config.max_tx_per_block {
            return Err(SecurityError::TooManyTransactions);
        }
        let calculated = self.calculate_block_hash(block);
        if block.hash != calculated {
            return Err(SecurityError::InvalidBlockHash);
        }
        Ok(())
    }

    /// Sweeps, at time `now`, hashes older than an hour from the replay
    /// cache and records idle for ten seconds from the rate-limit table.
    pub fn cleanup_at(&mut self, now: u64)
        ensures
            final(self).tx_hash_tracker.model() == swept(old(self).tx_hash_tracker.model(), now, REPLAY_WINDOW_SECS),
            final(self).rate_limiter.model() == old(self).rate_limiter.model().filter(
                recent_window(now, RATE_LIMIT_IDLE_SECS),
            ),
            final(self).nonce_tracker == old(self).nonce_tracker,
            final(self).config == old(self).config,
    {
        self.tx_hash_tracker = retain_recent(&self.tx_hash_tracker, now, REPLAY_WINDOW_SECS);
        self.rate_limiter = retain_recent_windows(&self.rate_limiter, now, RATE_LIMIT_IDLE_SECS);
    }

    /// `cleanup_at` at the current time.
    pub fn cleanup(&mut self)
        ensures
            final(self).nonce_tracker == old(self).nonce_tracker,
            final(self).config == old(self).config,
            exists|now: u64| final(self).tx_hash_tracker.model() == #[trigger] swept(old(self).tx_hash_tracker.model(), now, REPLAY_WINDOW_SECS)
                && final(self).rate_limiter.model() == old(self).rate_limiter.model().filter(recent_window(now, RATE_LIMIT_IDLE_SECS)),
    {
        let now = unix_now();
        self.cleanup_at(now);
    }
}

} // verus!
