use crate::digest::{sha256, sha256_of};
use crate::fee_model::FeeConfig;
use crate::crypto::{sig_size, verify_outcome, CryptoError};
use crate::mempool::{admitted, txs_of, Mempool, MempoolConfig, MempoolError};
use crate::transaction::{canonical_bytes, push_all, Transaction};
use vstd::prelude::*;

verus! {

/// A block of transactions produced on one micro tick.
#[derive(Debug)]
pub struct MicroBlock {
    pub shard_id: u8,
    pub sequence: u64,
    pub timestamp: u64,
    pub transactions: Vec<Transaction>,
    pub state_root: [u8; 32],
}

/// The micro-blocks of one batch interval, committed together.
#[derive(Debug)]
pub struct BatchCommitment {
    pub shard_id: u8,
    pub batch_sequence: u64,
    pub micro_blocks: Vec<MicroBlock>,
    pub state_root: [u8; 32],
    pub transactions_count: u128,
    pub timestamp: u64,
}

/// Settings of a shard's sequencer.
#[derive(Debug, Clone, Copy)]
pub struct SequencerConfig {
    pub shard_id: u8,
    pub micro_block_interval_ms: u64,
    pub batch_interval_ms: u64,
    pub max_batch_size: usize,
    pub fee_config: FeeConfig,
    pub mempool_config: MempoolConfig,
}

/// A shard's sequencer: draws micro-blocks from its mempool and bundles
/// them into batches. The caller drives it from its timers.
#[derive(Debug)]
pub struct Sequencer {
    pub config: SequencerConfig,
    pub mempool: Mempool,
    pub micro_blocks: Vec<MicroBlock>,
    pub sequence_counter: u64,
    pub batch_counter: u64,
    /// A batch whose submission failed once, to be submitted again.
    pub retry: Option<BatchCommitment>,
}

/// The transaction hashes of `txs`, one after another.
pub open spec fn tx_hashes(txs: Seq<Transaction>) -> Seq<u8>
    decreases txs.len(),
{
    if txs.len() == 0 {
        Seq::empty()
    } else {
        tx_hashes(txs.drop_last()) + sha256_of(canonical_bytes(txs.last()))
    }
}

/// The state root of a micro-block: SHA-256 over its transactions' hashes.
pub open spec fn micro_root(txs: Seq<Transaction>) -> Seq<u8> {
    sha256_of(tx_hashes(txs))
}

/// The state roots of `mbs`, one after another.
pub open spec fn block_roots(mbs: Seq<MicroBlock>) -> Seq<u8>
    decreases mbs.len(),
{
    if mbs.len() == 0 {
        Seq::empty()
    } else {
        block_roots(mbs.drop_last()) + mbs.last().state_root@
    }
}

/// Number of transactions in `mbs`.
pub open spec fn tx_total(mbs: Seq<MicroBlock>) -> int
    decreases mbs.len(),
{
    if mbs.len() == 0 {
        0
    } else {
        tx_total(mbs.drop_last()) + mbs.last().transactions@.len()
    }
}

/// The state root of a micro-block over `txs`.
pub fn micro_block_root(txs: &Vec<Transaction>) -> (r: [u8; 32])
    ensures
        r@ == micro_root(txs@),
{
    let mut bytes: Vec<u8> = Vec::new();
    let mut i: usize = 0;
    while i < txs.len()
        invariant
            0 <= i <= txs@.len(),
            bytes@ == tx_hashes(txs@.subrange(0, i as int)),
        decreases txs@.len() - i,
    {
        assert(txs@.subrange(0, i + 1).drop_last() =~= txs@.subrange(0, i as int));
        let h = txs[i].hash();
        push_all(&mut bytes, h.as_slice());
        i += 1;
    }
    assert(txs@.subrange(0, i as int) =~= txs@);
    sha256(bytes.as_slice())
}

/// The state root of a batch of micro-blocks: SHA-256 over their roots.
pub fn batch_root(mbs: &Vec<MicroBlock>) -> (r: [u8; 32])
    ensures
        r@ == sha256_of(block_roots(mbs@)),
{
    let mut bytes: Vec<u8> = Vec::new();
    let mut i: usize = 0;
    while i < mbs.len()
        invariant
            0 <= i <= mbs@.len(),
            bytes@ == block_roots(mbs@.subrange(0, i as int)),
        decreases mbs@.len() - i,
    {
        assert(mbs@.subrange(0, i + 1).drop_last() =~= mbs@.subrange(0, i as int));
        push_all(&mut bytes, mbs[i].state_root.as_slice());
        i += 1;
    }
    assert(mbs@.subrange(0, i as int) =~= mbs@);
    sha256(bytes.as_slice())
}

impl Sequencer {
    /// The sequencer's invariant: its mempool's.
    pub open spec fn wf(&self) -> bool {
        &&& self.mempool.wf()
        &&& self.mempool.config == self.config.mempool_config
    }

    /// A sequencer with an empty mempool, no micro-blocks and counters at zero.
    pub fn new(config: SequencerConfig) -> (r: Self)
        ensures
            r.wf(),
            r.config == config,
            r.mempool.entries@.len() == 0,
            r.micro_blocks@.len() == 0,
            r.sequence_counter == 0,
            r.batch_counter == 0,
            r.retry is None,
    {
        Sequencer {
            config,
            mempool: Mempool::new(config.mempool_config),
            micro_blocks: Vec::new(),
            sequence_counter: 0,
            batch_counter: 0,
            retry: None,
        }
    }

    /// Hands an incoming transaction to the mempool. A rejected one is
    /// dropped; its error is returned for the caller to report.
    pub fn on_transaction(&mut self, tx: Transaction, now: u64) -> (r: Result<[u8; 32], MempoolError>)
        requires
            old(self).wf(),
            sig_size(tx.signature) + 32 <= usize::MAX,
        ensures
            final(self).wf(),
            final(self).config == old(self).config,
            final(self).micro_blocks == old(self).micro_blocks,
            final(self).sequence_counter == old(self).sequence_counter,
            final(self).batch_counter == old(self).batch_counter,
            verify_outcome(tx.signature, sha256_of(canonical_bytes(tx)), tx.public_key) != Ok::<bool, CryptoError>(true)
                ==> r == Err::<[u8; 32], MempoolError>(MempoolError::BadSignature)
                && final(self).mempool.entries@ == old(self).mempool.entries@,
            verify_outcome(tx.signature, sha256_of(canonical_bytes(tx)), tx.public_key) == Ok::<bool, CryptoError>(true)
                ==> admitted(old(self).mempool.entries@, old(self).config.mempool_config, tx, now, r,
                final(self).mempool.entries@),
    {
        self.mempool.add_tx(tx, now)
    }

    /// On a micro tick at `now`: when the mempool holds anything, draws up
    /// to `max_batch_size` transactions of highest priority into a new
    /// micro-block numbered one past the last, and buffers it. Returns
    /// whether a block was produced.
    pub fn on_micro_tick(&mut self, now: u64) -> (r: bool)
        requires
            old(self).wf(),
            old(self).sequence_counter < u64::MAX,
        ensures
            final(self).wf(),
            final(self).config == old(self).config,
            final(self).batch_counter == old(self).batch_counter,
            r == (old(self).mempool.entries@.len() > 0 && old(self).config.max_batch_size > 0),
            !r ==> final(self).micro_blocks@ == old(self).micro_blocks@ && final(self).sequence_counter
                == old(self).sequence_counter && final(self).mempool.entries@ == old(self).mempool.entries@,
            r ==> {
                let s = old(self).mempool.entries@;
                let k = if old(self).config.max_batch_size < s.len() { old(self).config.max_batch_size as int } else { s.len() as int };
                let mb = final(self).micro_blocks@.last();
                &&& final(self).sequence_counter == old(self).sequence_counter + 1
                &&& final(self).micro_blocks@.drop_last() == old(self).micro_blocks@
                &&& final(self).micro_blocks@.len() == old(self).micro_blocks@.len() + 1
                &&& mb.shard_id == old(self).config.shard_id
                &&& mb.sequence == final(self).sequence_counter
                &&& mb.timestamp == now
                &&& mb.transactions@ == txs_of(s.subrange(0, k))
                &&& mb.state_root@ == micro_root(mb.transactions@)
                &&& final(self).mempool.entries@ == s.subrange(k, s.len() as int)
            },
    {
        if self.mempool.size() == 0 || self.config.max_batch_size == 0 {
            return false;
        }
        let transactions = self.mempool.get_batch(self.config.max_batch_size);
        let state_root = micro_block_root(&transactions);
        self.sequence_counter = self.sequence_counter + 1;
        let mb = MicroBlock {
            shard_id: self.config.shard_id,
            sequence: self.sequence_counter,
            timestamp: now,
            transactions,
            state_root,
        };
        let ghost before = self.micro_blocks@;
        self.micro_blocks.push(mb);
        assert(self.micro_blocks@.drop_last() =~= before);
        true
    }

    /// On a batch tick at `now`: when micro-blocks are buffered, bundles
    /// them into a batch numbered one past the last, empties the buffer and
    /// returns the batch for submission.
    pub fn on_batch_tick(&mut self, now: u64) -> (r: Option<BatchCommitment>)
        requires
            old(self).wf(),
            old(self).batch_counter < u64::MAX,
        ensures
            final(self).wf(),
            final(self).config == old(self).config,
            final(self).sequence_counter == old(self).sequence_counter,
            final(self).mempool == old(self).mempool,
            final(self).retry == old(self).retry,
            old(self).micro_blocks@.len() == 0 ==> r is None && final(self).batch_counter == old(self).batch_counter,
            old(self).micro_blocks@.len() > 0 ==> r is Some && final(self).micro_blocks@.len() == 0 && {
                let b = r->0;
                &&& final(self).batch_counter == old(self).batch_counter + 1
                &&& b.batch_sequence == final(self).batch_counter
                &&& b.shard_id == old(self).config.shard_id
                &&& b.micro_blocks@ == old(self).micro_blocks@
                &&& b.state_root@ == sha256_of(block_roots(old(self).micro_blocks@))
                &&& b.transactions_count == tx_total(old(self).micro_blocks@)
                &&& b.timestamp == now
            },
    {
        if self.micro_blocks.len() == 0 {
            return None;
        }
        let state_root = batch_root(&self.micro_blocks);
        let mut count: u128 = 0;
        let mut i: usize = 0;
        while i < self.micro_blocks.len()
            invariant
                0 <= i <= self.micro_blocks@.len(),
                count == tx_total(self.micro_blocks@.subrange(0, i as int)),
                count <= i * 18446744073709551615,
            decreases self.micro_blocks@.len() - i,
        {
            assert(self.micro_blocks@.subrange(0, i + 1).drop_last() =~= self.micro_blocks@.subrange(0, i as int));
            count = count + self.micro_blocks[i].transactions.len() as u128;
            i += 1;
        }
        assert(self.micro_blocks@.subrange(0, i as int) =~= self.micro_blocks@);
        let ghost buffered = self.micro_blocks@;
        let mut micro_blocks: Vec<MicroBlock> = Vec::new();
        std::mem::swap(&mut micro_blocks, &mut self.micro_blocks);
        assert(micro_blocks@ == buffered);
        self.batch_counter = self.batch_counter + 1;
        Some(BatchCommitment {
            shard_id: self.config.shard_id,
            batch_sequence: self.batch_counter,
            micro_blocks,
            state_root,
            transactions_count: count,
            timestamp: now,
        })
    }

    /// Records that submitting `batch` failed. A batch that failed on its
    /// first submission is kept to be submitted once more; one that failed
    /// on its retry is dropped.
    pub fn on_submit_failure(&mut self, batch: BatchCommitment, was_retry: bool)
        ensures
            final(self).config == old(self).config,
            final(self).mempool == old(self).mempool,
            final(self).micro_blocks == old(self).micro_blocks,
            final(self).sequence_counter == old(self).sequence_counter,
            final(self).batch_counter == old(self).batch_counter,
            !was_retry ==> final(self).retry == Some(batch),
            was_retry ==> final(self).retry is None,
    {
        if was_retry {
            self.retry = None;
        } else {
            self.retry = Some(batch);
        }
    }

    /// Hands out the batch awaiting its second submission, if any.
    pub fn take_retry(&mut self) -> (r: Option<BatchCommitment>)
        ensures
            r == old(self).retry,
            final(self).retry is None,
            final(self).config == old(self).config,
            final(self).mempool == old(self).mempool,
            final(self).micro_blocks == old(self).micro_blocks,
            final(self).sequence_counter == old(self).sequence_counter,
            final(self).batch_counter == old(self).batch_counter,
    {
        self.retry.take()
    }
}

} // verus!
