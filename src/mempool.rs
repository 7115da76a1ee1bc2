use crate::crypto::{address_eq, bytes_equal, same_address, sig_size, verify_outcome, Address};
use crate::digest::sha256_of;
use crate::transaction::{canonical_bytes, expired_at, Transaction};
use vstd::prelude::*;

verus! {

/// Limits of a shard's mempool.
#[derive(Debug, Clone, Copy)]
pub struct MempoolConfig {
    /// Most transactions held at once.
    pub max_size: usize,
    /// Age after which a sweep drops a transaction, in seconds.
    pub max_tx_age_secs: u64,
    /// Lowest gas price accepted, in base units.
    pub min_gas_price: u128,
    /// Most transactions held per sender.
    pub max_tx_per_account: usize,
}

impl MempoolConfig {
    /// Ten thousand transactions, an hour's age, a minimum gas price of one
    /// base unit, and a hundred transactions per sender.
    pub fn new() -> (r: Self)
        ensures
            r.max_size == 10_000,
            r.max_tx_age_secs == 3600,
            r.min_gas_price == 1,
            r.max_tx_per_account == 100,
    {
        MempoolConfig { max_size: 10_000, max_tx_age_secs: 3600, min_gas_price: 1, max_tx_per_account: 100 }
    }
}

impl Default for MempoolConfig {
    fn default() -> (r: Self)
        ensures
            r.max_size == 10_000,
            r.max_tx_per_account == 100,
    {
        MempoolConfig::new()
    }
}

/// A transaction waiting in the mempool.
#[derive(Debug)]
pub struct PooledTransaction {
    pub tx: Transaction,
    pub tx_hash: [u8; 32],
    pub received_at: u64,
    pub gas_price: u128,
}

/// Pending transactions of one shard, highest gas price first and, among
/// equal prices, oldest first.
#[derive(Debug)]
pub struct Mempool {
    pub entries: Vec<PooledTransaction>,
    pub config: MempoolConfig,
}

/// Counts describing a mempool.
#[derive(Debug, Clone, Copy, PartialEq, Eq, Structural)]
pub struct MempoolStats {
    pub total_transactions: usize,
    pub unique_accounts: usize,
    pub capacity_used_percent: u32,
}

/// Why a transaction was not admitted.
#[derive(Debug, Clone, Copy, PartialEq, Eq, Structural)]
pub enum MempoolError {
    FeeTooLow,
    RateLimitExceeded,
    MempoolFull,
    TxExists,
    BadSignature,
    Expired,
}

impl MempoolError {
    /// A human-readable description of the error.
    pub fn message(&self) -> (r: String)
        ensures
            r@ == (match *self {
                MempoolError::FeeTooLow => "Gas price too low"@,
                MempoolError::RateLimitExceeded => "Too many pending transactions for this account"@,
                MempoolError::MempoolFull => "Mempool full"@,
                MempoolError::TxExists => "Transaction already in mempool"@,
                MempoolError::BadSignature => "Invalid signature"@,
                MempoolError::Expired => "Transaction expired"@,
            }),
    {
        match self {
            MempoolError::FeeTooLow => "Gas price too low".to_string(),
            MempoolError::RateLimitExceeded => "Too many pending transactions for this account".to_string(),
            MempoolError::MempoolFull => "Mempool full".to_string(),
            MempoolError::TxExists => "Transaction already in mempool".to_string(),
            MempoolError::BadSignature => "Invalid signature".to_string(),
            MempoolError::Expired => "Transaction expired".to_string(),
        }
    }
}

/// Whether an entry's recorded hash and price are those of its transaction.
pub open spec fn entry_ok(e: PooledTransaction) -> bool {
    &&& e.tx_hash@ == sha256_of(canonical_bytes(e.tx))
    &&& e.gas_price == e.tx.gas_price
}

/// Whether gas prices do not increase along `s`.
pub open spec fn by_priority(s: Seq<PooledTransaction>) -> bool {
    forall|i: int, j: int| 0 <= i < j < s.len() ==> s[i].gas_price >= s[j].gas_price
}

/// Whether the hashes in `s` are distinct.
pub open spec fn distinct_hashes(s: Seq<PooledTransaction>) -> bool {
    forall|i: int, j: int| 0 <= i < j < s.len() ==> s[i].tx_hash@ != s[j].tx_hash@
}

/// Whether a hash occurs in `s`.
pub open spec fn holds_hash(s: Seq<PooledTransaction>, h: Seq<u8>) -> bool {
    exists|i: int| 0 <= i < s.len() && s[i].tx_hash@ == h
}

/// Number of entries of `s` sent from `a`.
pub open spec fn count_from(s: Seq<PooledTransaction>, a: Address) -> nat
    decreases s.len(),
{
    if s.len() == 0 {
        0
    } else {
        count_from(s.drop_last(), a) + if same_address(s.last().tx.from, a) {
            1nat
        } else {
            0nat
        }
    }
}

/// Number of distinct senders in `s`.
pub open spec fn sender_count(s: Seq<PooledTransaction>) -> nat
    decreases s.len(),
{
    if s.len() == 0 {
        0
    } else {
        sender_count(s.drop_last()) + if exists|j: int|
            0 <= j < s.len() - 1 && same_address(#[trigger] s[j].tx.from, s.last().tx.from) {
            0nat
        } else {
            1nat
        }
    }
}

/// Whether an entry received at `received_at` is still fresh at `now`.
pub open spec fn fresh(received_at: u64, now: u64, max_age: u64) -> bool {
    now <= received_at || now - received_at <= max_age
}

/// Whether an entry is still fresh at `now`.
pub open spec fn fresh_entry(now: u64, max_age: u64) -> spec_fn(PooledTransaction) -> bool {
    |e: PooledTransaction| fresh(e.received_at, now, max_age)
}

/// The transactions of a list of entries.
pub open spec fn txs_of(s: Seq<PooledTransaction>) -> Seq<Transaction> {
    s.map_values(|e: PooledTransaction| e.tx)
}

/// The entries left after making room in a pool of capacity `max`: all
/// but the last when the pool is full.
pub open spec fn after_eviction(s: Seq<PooledTransaction>, max: usize) -> Seq<PooledTransaction> {
    if s.len() >= max {
        s.drop_last()
    } else {
        s
    }
}

/// The position at which an entry of price `price` joins `s`: after every
/// entry of at least that price.
pub open spec fn slot_for(s: Seq<PooledTransaction>, price: u128, p: int) -> bool {
    &&& 0 <= p <= s.len()
    &&& forall|i: int| 0 <= i < p ==> s[i].gas_price >= price
    &&& forall|i: int| p <= i < s.len() ==> s[i].gas_price < price
}

/// What admitting `tx` at `now` does to a pool holding `before` under
/// config `c`: the first failed check decides the error and leaves the pool
/// as it was; otherwise, after evicting the last entry of a full pool, the
/// entry joins after every entry of at least its gas price.
pub open spec fn admitted(
    before: Seq<PooledTransaction>,
    c: MempoolConfig,
    tx: Transaction,
    now: u64,
    r: Result<[u8; 32], MempoolError>,
    after: Seq<PooledTransaction>,
) -> bool {
    let h = sha256_of(canonical_bytes(tx));
    &&& expired_at(tx.expiry, now) ==> r == Err::<[u8; 32], MempoolError>(MempoolError::Expired)
    &&& !expired_at(tx.expiry, now) && tx.gas_price < c.min_gas_price ==> r == Err::<[u8; 32], MempoolError>(MempoolError::FeeTooLow)
    &&& !expired_at(tx.expiry, now) && tx.gas_price >= c.min_gas_price && holds_hash(before, h)
        ==> r == Err::<[u8; 32], MempoolError>(MempoolError::TxExists)
    &&& !expired_at(tx.expiry, now) && tx.gas_price >= c.min_gas_price && !holds_hash(before, h)
        && count_from(before, tx.from) >= c.max_tx_per_account
        ==> r == Err::<[u8; 32], MempoolError>(MempoolError::RateLimitExceeded)
    &&& !expired_at(tx.expiry, now) && tx.gas_price >= c.min_gas_price && !holds_hash(before, h)
        && count_from(before, tx.from) < c.max_tx_per_account && c.max_size == 0
        ==> r == Err::<[u8; 32], MempoolError>(MempoolError::MempoolFull)
    &&& r is Err ==> after == before
    &&& r is Ok <==> (!expired_at(tx.expiry, now) && tx.gas_price >= c.min_gas_price && !holds_hash(before, h)
        && count_from(before, tx.from) < c.max_tx_per_account && c.max_size > 0)
    &&& match r {
        Ok(hash) => {
            let kept = after_eviction(before, c.max_size);
            &&& hash@ == h
            &&& exists|p: int| slot_for(kept, tx.gas_price, p) && after == kept.insert(p,
                PooledTransaction { tx, tx_hash: hash, received_at: now, gas_price: tx.gas_price })
        },
        Err(_) => true,
    }
}

proof fn lemma_count_insert(s: Seq<PooledTransaction>, p: int, x: PooledTransaction, a: Address)
    requires
        0 <= p <= s.len(),
    ensures
        count_from(s.insert(p, x), a) == count_from(s, a) + if same_address(x.tx.from, a) {
            1nat
        } else {
            0nat
        },
    decreases s.len(),
{
    if p == s.len() {
        assert(s.insert(p, x).drop_last() =~= s);
    } else {
        assert(s.insert(p, x).drop_last() =~= s.drop_last().insert(p, x));
        lemma_count_insert(s.drop_last(), p, x, a);
    }
}

proof fn lemma_count_remove(s: Seq<PooledTransaction>, q: int, a: Address)
    requires
        0 <= q < s.len(),
    ensures
        count_from(s.remove(q), a) + (if same_address(s[q].tx.from, a) { 1nat } else { 0nat })
            == count_from(s, a),
    decreases s.len(),
{
    if q == s.len() - 1 {
        assert(s.remove(q) =~= s.drop_last());
    } else {
        assert(s.remove(q).drop_last() =~= s.drop_last().remove(q));
        lemma_count_remove(s.drop_last(), q, a);
    }
}

proof fn lemma_count_same(s: Seq<PooledTransaction>, a: Address, b: Address)
    requires
        same_address(a, b),
    ensures
        count_from(s, a) == count_from(s, b),
    decreases s.len(),
{
    if s.len() > 0 {
        lemma_count_same(s.drop_last(), a, b);
    }
}

proof fn lemma_count_push(s: Seq<PooledTransaction>, x: PooledTransaction, a: Address)
    ensures
        count_from(s.push(x), a) == count_from(s, a) + if same_address(x.tx.from, a) {
            1nat
        } else {
            0nat
        },
{
    assert(s.push(x).drop_last() =~= s);
}

impl Mempool {
    /// The pool's invariant: within capacity, ordered by priority, hashes
    /// distinct, and no sender over its cap.
    pub open spec fn wf(&self) -> bool {
        &&& self.entries@.len() <= self.config.max_size
        &&& by_priority(self.entries@)
        &&& distinct_hashes(self.entries@)
        &&& forall|a: Address| #[trigger] count_from(self.entries@, a) <= self.config.max_tx_per_account
        &&& forall|i: int| 0 <= i < self.entries@.len() ==> #[trigger] entry_ok(self.entries@[i])
    }

    /// An empty pool.
    pub fn new(config: MempoolConfig) -> (r: Self)
        ensures
            r.wf(),
            r.entries@.len() == 0,
            r.config == config,
    {
        Mempool { entries: Vec::new(), config }
    }

    /// Number of pending transactions.
    pub fn size(&self) -> (r: usize)
        ensures
            r == self.entries@.len(),
    {
        self.entries.len()
    }

    fn contains_hash(&self, h: &[u8; 32]) -> (r: bool)
        ensures
            r == holds_hash(self.entries@, h@),
    {
        let mut i: usize = 0;
        while i < self.entries.len()
            invariant
                0 <= i <= self.entries@.len(),
                forall|j: int| 0 <= j < i ==> self.entries@[j].tx_hash@ != h@,
            decreases self.entries@.len() - i,
        {
            if bytes_equal(self.entries[i].tx_hash.as_slice(), h.as_slice()) {
                return true;
            }
            i += 1;
        }
        false
    }

    fn count_sender(&self, a: &Address) -> (r: usize)
        ensures
            r == count_from(self.entries@, *a),
    {
        let mut n: usize = 0;
        let mut i: usize = 0;
        while i < self.entries.len()
            invariant
                0 <= i <= self.entries@.len(),
                n == count_from(self.entries@.subrange(0, i as int), *a),
                n <= i,
            decreases self.entries@.len() - i,
        {
            assert(self.entries@.subrange(0, i + 1).drop_last() =~= self.entries@.subrange(0, i as int));
            if address_eq(&self.entries[i].tx.from, a) {
                n = n + 1;
            }
            i += 1;
        }
        assert(self.entries@.subrange(0, i as int) =~= self.entries@);
        n
    }

    fn slot(&self, price: u128) -> (r: usize)
        requires
            by_priority(self.entries@),
        ensures
            slot_for(self.entries@, price, r as int),
    {
        let mut i: usize = 0;
        while i < self.entries.len() && self.entries[i].gas_price >= price
            invariant
                0 <= i <= self.entries@.len(),
                forall|j: int| 0 <= j < i ==> self.entries@[j].gas_price >= price,
            decreases self.entries@.len() - i,
        {
            i += 1;
        }
        i
    }

    /// Admits a transaction whose signature has been checked, at time
    /// `now`. It is rejected when expired, priced under the minimum gas
    /// price, already present, or when its sender is at the per-account
    /// cap. When the pool is full the lowest-priority entry is evicted
    /// first; a pool of capacity zero rejects everything as full. The
    /// entry goes after every entry of at least its gas price.
    pub fn add_verified(&mut self, tx: Transaction, now: u64) -> (r: Result<[u8; 32], MempoolError>)
        requires
            old(self).wf(),
        ensures
            final(self).wf(),
            final(self).config == old(self).config,
            admitted(old(self).entries@, old(self).config, tx, now, r, final(self).entries@),
    {
        if tx.is_expired(now) {
            return Err(MempoolError::Expired);
        }
        if tx.gas_price < self.config.min_gas_price {
            return Err(MempoolError::FeeTooLow);
        }
        let tx_hash = tx.hash();
        if self.contains_hash(&tx_hash) {
            return Err(MempoolError::TxExists);
        }
        if self.count_sender(&tx.from) >= self.config.max_tx_per_account {
            return Err(MempoolError::RateLimitExceeded);
        }
        if self.config.max_size == 0 {
            return Err(MempoolError::MempoolFull);
        }
        let ghost s0 = self.entries@;
        if self.entries.len() >= self.config.max_size {
            let evicted = self.entries.pop();
            proof {
                let s1 = self.entries@;
                assert(s1 =~= s0.remove(s0.len() - 1));
                assert forall|a: Address| #[trigger] count_from(s1, a) <= self.config.max_tx_per_account by {
                    lemma_count_remove(s0, s0.len() - 1, a);
                }
            }
        }
        let ghost s1 = self.entries@;
        let ghost kept = after_eviction(s0, self.config.max_size);
        assert(s1 =~= kept);
        assert(forall|a: Address| count_from(s1, a) <= count_from(s0, a)) by {
            assert forall|a: Address| count_from(s1, a) <= count_from(s0, a) by {
                if s1.len() < s0.len() {
                    assert(s1 =~= s0.remove(s0.len() - 1));
                    lemma_count_remove(s0, s0.len() - 1, a);
                }
            }
        }
        let price = tx.gas_price;
        let p = self.slot(price);
        let ghost from = tx.from;
        let entry = PooledTransaction { tx, tx_hash, received_at: now, gas_price: price };
        let ghost e = entry;
        self.entries.insert(p, entry);
        proof {
            let s2 = self.entries@;
            assert(s2 == s1.insert(p as int, e));
            assert forall|a: Address| #[trigger] count_from(s2, a) <= self.config.max_tx_per_account by {
                lemma_count_insert(s1, p as int, e, a);
                if same_address(from, a) {
                    lemma_count_same(s0, from, a);
                }
            }
            assert(slot_for(kept, price, p as int));
            assert forall|i: int, j: int| 0 <= i < j < s2.len() implies s2[i].gas_price >= s2[j].gas_price by {
                if j < p {
                } else if i > p {
                    assert(s1[i - 1].gas_price >= s1[j - 1].gas_price);
                } else if i == p {
                } else {
                    if j > p { assert(s2[j] == s1[j - 1]); }
                }
            }
            assert forall|i: int, j: int| 0 <= i < j < s2.len() implies s2[i].tx_hash@ != s2[j].tx_hash@ by {
                if i == p {
                    assert(s2[j] == s1[j - 1]);
                } else if j == p {
                    assert(s2[i] == s1[i]);
                } else {
                    let i1 = if i < p { i } else { i - 1 };
                    let j1 = if j < p { j } else { j - 1 };
                    assert(s2[i] == s1[i1] && s2[j] == s1[j1]);
                    assert(s0[i1] == s1[i1] && s0[j1] == s1[j1]);
                }
            }
        }
        Ok(tx_hash)
    }

    /// Admits a transaction: its signature must verify over its hash, after
    /// which `add_verified` decides.
    pub fn add_tx(&mut self, tx: Transaction, now: u64) -> (r: Result<[u8; 32], MempoolError>)
        requires
            old(self).wf(),
            sig_size(tx.signature) + 32 <= usize::MAX,
        ensures
            final(self).wf(),
            final(self).config == old(self).config,
            verify_outcome(tx.signature, sha256_of(canonical_bytes(tx)), tx.public_key) != Ok::<bool, crate::crypto::CryptoError>(true)
                ==> r == Err::<[u8; 32], MempoolError>(MempoolError::BadSignature) && final(self).entries@ == old(self).entries@,
            verify_outcome(tx.signature, sha256_of(canonical_bytes(tx)), tx.public_key) == Ok::<bool, crate::crypto::CryptoError>(true)
                ==> admitted(old(self).entries@, old(self).config, tx, now, r, final(self).entries@),
    {
        match tx.verify_signature() {
            Ok(true) => self.add_verified(tx, now),
            _ => Err(MempoolError::BadSignature),
        }
    }

    /// Takes up to `max_count` transactions of highest priority out of the pool.
    pub fn get_batch(&mut self, max_count: usize) -> (r: Vec<Transaction>)
        requires
            old(self).wf(),
        ensures
            final(self).wf(),
            final(self).config == old(self).config,
            ({
                let k = if max_count < old(self).entries@.len() { max_count as int } else { old(self).entries@.len() as int };
                &&& r@ == txs_of(old(self).entries@.subrange(0, k))
                &&& final(self).entries@ == old(self).entries@.subrange(k, old(self).entries@.len() as int)
            }),
    {
        let ghost s0 = self.entries@;
        let mut out: Vec<Transaction> = Vec::new();
        let mut taken: usize = 0;
        while taken < max_count && self.entries.len() > 0
            invariant
                self.config == old(self).config,
                0 <= taken <= s0.len(),
                taken <= max_count,
                self.entries@ == s0.subrange(taken as int, s0.len() as int),
                out@ == txs_of(s0.subrange(0, taken as int)),
                self.wf(),
            decreases s0.len() - taken,
        {
            let ghost before = self.entries@;
            let e = self.entries.remove(0);
            proof {
                assert(self.entries@ =~= s0.subrange(taken + 1, s0.len() as int));
                assert forall|a: Address| #[trigger] count_from(self.entries@, a) <= self.config.max_tx_per_account by {
                    lemma_count_remove(before, 0, a);
                }
                assert(txs_of(s0.subrange(0, taken + 1)) =~= txs_of(s0.subrange(0, taken as int)).push(e.tx));
            }
            out.push(e.tx);
            taken += 1;
        }
        out
    }

    /// Drops the entries older than `max_tx_age_secs` at time `now`, keeping
    /// the others in order.
    pub fn cleanup_expired(&mut self, now: u64)
        requires
            old(self).wf(),
        ensures
            final(self).wf(),
            final(self).config == old(self).config,
            final(self).entries@ == old(self).entries@.filter(fresh_entry(now, old(self).config.max_tx_age_secs)),
    {
        let ghost s0 = self.entries@;
        assert(s0.len() == self.entries.len());
        let ghost pred = fresh_entry(now, self.config.max_tx_age_secs);
        let mut kept: Vec<PooledTransaction> = Vec::new();
        let mut n: usize = 0;
        let max_age = self.config.max_tx_age_secs;
        while self.entries.len() > 0
            invariant
                self.config == old(self).config,
                max_age == self.config.max_tx_age_secs,
                pred == fresh_entry(now, max_age),
                0 <= n <= s0.len(),
                s0.len() <= usize::MAX,
                self.entries@ == s0.subrange(n as int, s0.len() as int),
                kept@ == s0.subrange(0, n as int).filter(pred),
                kept@.len() <= n,
                by_priority(s0),
                distinct_hashes(s0),
                forall|a: Address| #[trigger] count_from(kept@, a) <= count_from(s0.subrange(0, n as int), a),
                forall|i: int, j: int| 0 <= i < kept@.len() && n <= j < s0.len() ==> kept@[i].gas_price >= s0[j].gas_price
                    && kept@[i].tx_hash@ != s0[j].tx_hash@,
                by_priority(kept@),
                distinct_hashes(kept@),
                forall|j: int| 0 <= j < kept@.len() ==> #[trigger] entry_ok(kept@[j]),
                forall|j: int| 0 <= j < s0.len() ==> #[trigger] entry_ok(s0[j]),
            decreases s0.len() - n,
        {
            assert(self.entries@.len() == s0.len() - n);
            let e = self.entries.remove(0);
            proof {
                assert(s0.subrange(0, n + 1) =~= s0.subrange(0, n as int).push(s0[n as int]));
                s0.subrange(0, n as int).lemma_filter_push(s0[n as int], pred);
                assert(self.entries@ =~= s0.subrange(n + 1, s0.len() as int));
                assert(e == s0[n as int]);
            }
            let received = e.received_at;
            if now <= received || now - received <= max_age {
                let ghost prev = kept@;
                kept.push(e);
                proof {
                    assert forall|a: Address| #[trigger] count_from(kept@, a) <= count_from(s0.subrange(0, n + 1), a) by {
                        lemma_count_push(prev, s0[n as int], a);
                        lemma_count_push(s0.subrange(0, n as int), s0[n as int], a);
                    }
                }
            } else {
                proof {
                    assert forall|a: Address| #[trigger] count_from(kept@, a) <= count_from(s0.subrange(0, n + 1), a) by {
                        lemma_count_push(s0.subrange(0, n as int), s0[n as int], a);
                    }
                }
            }
            n += 1;
        }
        proof {
            assert(s0.subrange(0, n as int) =~= s0);
        }
        self.entries = kept;
    }

    /// Pending transactions, distinct senders, and the share of capacity in
    /// use as a whole percentage rounded down.
    pub fn stats(&self) -> (r: MempoolStats)
        requires
            self.wf(),
        ensures
            r.total_transactions == self.entries@.len(),
            r.unique_accounts == sender_count(self.entries@),
            self.config.max_size > 0 ==> r.capacity_used_percent == self.entries@.len() * 100int / (self.config.max_size as int),
            self.config.max_size == 0 ==> r.capacity_used_percent == 0,
    {
        let mut unique: usize = 0;
        let mut i: usize = 0;
        while i < self.entries.len()
            invariant
                0 <= i <= self.entries@.len(),
                unique == sender_count(self.entries@.subrange(0, i as int)),
                unique <= i,
            decreases self.entries@.len() - i,
        {
            let ghost pre = self.entries@.subrange(0, i + 1);
            assert(pre.drop_last() =~= self.entries@.subrange(0, i as int));
            let mut seen = false;
            let mut j: usize = 0;
            while j < i
                invariant
                    0 <= j <= i < self.entries@.len(),
                    pre == self.entries@.subrange(0, i + 1),
                    seen == exists|k: int| 0 <= k < j && same_address(#[trigger] pre[k].tx.from, pre.last().tx.from),
                decreases i - j,
            {
                assert(pre[j as int] == self.entries@[j as int]);
                assert(pre.last() == self.entries@[i as int]);
                if address_eq(&self.entries[j].tx.from, &self.entries[i].tx.from) {
                    seen = true;
                }
                j += 1;
            }
            if !seen {
                unique = unique + 1;
            }
            i += 1;
        }
        assert(self.entries@.subrange(0, i as int) =~= self.entries@);
        let total = self.entries.len();
        let percent: u32 = if self.config.max_size == 0 {
            0
        } else {
            let max = self.config.max_size;
            proof {
                assert((total as int) * 100 / (max as int) <= 100) by (nonlinear_arith)
                    requires
                        total <= max,
                        max > 0,
                ;
            }
            ((total as u128) * 100 / (max as u128)) as u32
        };
        MempoolStats { total_transactions: total, unique_accounts: unique, capacity_used_percent: percent }
    }
}

/// Every operation keeps the pool's invariant, so after
/// any sequence of admissions, batches and sweeps the pool holds at most
/// `max_size` transactions and at most `max_tx_per_account` from any
/// sender; the first `k` entries, which a batch of `k` hands out, share
/// no hash with one another nor with the entries left behind; and, each
/// hash being that of its own transaction, no two pending transactions are
/// the same, so no transaction is handed out twice.
pub proof fn lemma_pool_bounds(m: Mempool, k: int, a: Address)
    requires
        m.wf(),
        0 <= k <= m.entries@.len(),
    ensures
        m.entries@.len() <= m.config.max_size,
        count_from(m.entries@, a) <= m.config.max_tx_per_account,
        forall|i: int, j: int| 0 <= i < j < k ==> m.entries@[i].tx_hash@ != m.entries@[j].tx_hash@,
        forall|i: int, j: int| 0 <= i < k <= j < m.entries@.len() ==> m.entries@[i].tx_hash@ != m.entries@[j].tx_hash@,
        forall|i: int, j: int| 0 <= i < j < m.entries@.len() ==> canonical_bytes(m.entries@[i].tx) != canonical_bytes(m.entries@[j].tx),
{
    assert forall|i: int, j: int| 0 <= i < j < m.entries@.len() implies canonical_bytes(m.entries@[i].tx) != canonical_bytes(m.entries@[j].tx) by {
        assert(entry_ok(m.entries@[i]) && entry_ok(m.entries@[j]));
    }
}

} // verus!
