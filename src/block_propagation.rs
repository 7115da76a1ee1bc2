use crate::table::{is_first, list_contains, lookup, put, texts_of as hashes_of, AddressTable};
use vstd::prelude::*;

verus! {

/// How blocks are passed on to peers.
#[derive(Debug, Clone, Copy)]
pub struct PropagationConfig {
    /// Most peers a block is sent to.
    pub max_peers: usize,
    /// Whether blocks go out in compact form.
    pub compact_blocks: bool,
    pub validation_timeout_ms: u64,
}

impl PropagationConfig {
    /// Eight peers, compact blocks, half a second to validate.
    pub fn new() -> (r: Self)
        ensures
            r.max_peers == 8,
            r.compact_blocks,
            r.validation_timeout_ms == 500,
    {
        PropagationConfig { max_peers: 8, compact_blocks: true, validation_timeout_ms: 500 }
    }
}

impl Default for PropagationConfig {
    fn default() -> (r: Self)
        ensures
            r.max_peers == 8,
            r.compact_blocks,
    {
        PropagationConfig::new()
    }
}

/// A block as the propagation layer sees it.
#[derive(Debug, Clone)]
pub struct BlockData {
    pub hash: String,
    pub height: u64,
    pub parent_hash: String,
    pub transactions: Vec<String>,
    pub validator_signature: Vec<u8>,
    pub timestamp: u64,
}

/// Policies for passing a block on.
#[derive(Debug, Clone, Copy, PartialEq, Eq, Structural)]
pub enum PropagationRule {
    Broadcast,
    Selective { max_peers: usize },
    Compact,
    /// Not passed on at all.
    Withhold,
}

/// The form in which a block is sent.
#[derive(Debug, Clone, Copy, PartialEq, Eq, Structural)]
pub enum BlockFormat {
    Full,
    Compact,
    HeaderOnly,
}

/// How urgently a block is sent.
#[derive(Debug, Clone, Copy, PartialEq, Eq, Structural)]
pub enum BlockPriority {
    Critical,
    High,
    Normal,
    Low,
}

/// Where and how to send one block.
#[derive(Debug, Clone)]
pub struct PropagationDecision {
    pub block_hash: String,
    pub peers: Vec<String>,
    pub format: BlockFormat,
    pub priority: BlockPriority,
}

/// Known blocks, and which blocks each peer has been sent.
#[derive(Debug)]
pub struct BlockPropagation {
    pub known_blocks: AddressTable<BlockData>,
    pub peer_blocks: AddressTable<Vec<String>>,
    pub config: PropagationConfig,
}

/// Whether `peer` has been sent the block `hash`.
pub open spec fn peer_has(t: Seq<(Seq<char>, Vec<String>)>, peer: Seq<char>, hash: Seq<char>) -> bool {
    match lookup(t, peer) {
        Some(v) => hashes_of(v).contains(hash),
        None => false,
    }
}

/// Peers, in table order, that have not been sent `hash`.
pub open spec fn candidates(t: Seq<(Seq<char>, Vec<String>)>, hash: Seq<char>) -> Seq<Seq<char>>
    decreases t.len(),
{
    if t.len() == 0 {
        Seq::empty()
    } else {
        let rest = candidates(t.drop_last(), hash);
        if hashes_of(t.last().1).contains(hash) {
            rest
        } else {
            rest.push(t.last().0)
        }
    }
}

/// The first `n` elements of `s`, or all of them.
pub open spec fn first_n(s: Seq<Seq<char>>, n: nat) -> Seq<Seq<char>> {
    if s.len() <= n {
        s
    } else {
        s.take(n as int)
    }
}

impl BlockPropagation {
    /// No known blocks and no peers.
    pub fn new(config: PropagationConfig) -> (r: Self)
        ensures
            r.config == config,
            r.known_blocks.model().len() == 0,
            r.peer_blocks.model().len() == 0,
    {
        BlockPropagation { known_blocks: AddressTable::new(), peer_blocks: AddressTable::new(), config }
    }

    /// Records a block and decides how to pass it on: to at most
    /// `max_peers` of the peers not yet sent it, in the order they were
    /// first seen, compact or full as configured, at high priority.
    pub fn add_block(&mut self, block: BlockData) -> (r: PropagationDecision)
        ensures
            final(self).known_blocks.model() == put(old(self).known_blocks.model(), block.hash@, block),
            final(self).peer_blocks == old(self).peer_blocks,
            final(self).config == old(self).config,
            r.block_hash@ == block.hash@,
            r.peers@.map_values(|s: String| s@) == first_n(candidates(old(self).peer_blocks.model(), block.hash@), old(self).config.max_peers as nat),
            r.format == if old(self).config.compact_blocks { BlockFormat::Compact } else { BlockFormat::Full },
            r.priority == BlockPriority::High,
    {
        let hash = block.hash.clone();
        self.known_blocks.insert(block.hash.clone(), block);
        let peers = self.select_propagation_peers(&hash);
        let format = if self.config.compact_blocks {
            BlockFormat::Compact
        } else {
            BlockFormat::Full
        };
        PropagationDecision { block_hash: hash, peers, format, priority: BlockPriority::High }
    }

    /// At most `max_peers` of the peers not yet sent `block_hash`, in table order.
    pub fn select_propagation_peers(&self, block_hash: &String) -> (r: Vec<String>)
        ensures
            r@.map_values(|s: String| s@) == first_n(candidates(self.peer_blocks.model(), block_hash@), self.config.max_peers as nat),
    {
        let t = &self.peer_blocks.entries;
        let max = self.config.max_peers;
        let mut out: Vec<String> = Vec::new();
        let mut i: usize = 0;
        while i < t.len()
            invariant
                t == &self.peer_blocks.entries,
                max == self.config.max_peers,
                0 <= i <= t@.len(),
                out@.map_values(|s: String| s@) == first_n(candidates(self.peer_blocks.model().subrange(0, i as int), block_hash@), max as nat),
            decreases t@.len() - i,
        {
            let ghost pre = self.peer_blocks.model().subrange(0, i as int);
            let ghost next = self.peer_blocks.model().subrange(0, i + 1);
            assert(next.drop_last() =~= pre);
            assert(next.last() == self.peer_blocks.model()[i as int]);
            let already_sent = list_contains(&t[i].1, block_hash);
            if !already_sent && out.len() < max {
                let ghost prev = out@;
                out.push(t[i].0.clone());
                assert(out@.map_values(|s: String| s@) =~= prev.map_values(|s: String| s@).push(t@[i as int].0@));
                assert(first_n(candidates(next, block_hash@), max as nat) =~= first_n(candidates(pre, block_hash@), max as nat).push(t@[i as int].0@));
            } else if !already_sent {
                assert(first_n(candidates(next, block_hash@), max as nat) =~= first_n(candidates(pre, block_hash@), max as nat));
            }
            i += 1;
        }
        assert(self.peer_blocks.model().subrange(0, i as int) =~= self.peer_blocks.model());
        out
    }

    /// Records that `block_hash` was sent to `peer_id`.
    pub fn mark_sent_to_peer(&mut self, peer_id: &str, block_hash: &str)
        ensures
            final(self).known_blocks == old(self).known_blocks,
            final(self).config == old(self).config,
            peer_has(final(self).peer_blocks.model(), peer_id@, block_hash@),
            forall|p: Seq<char>, h: Seq<char>| peer_has(old(self).peer_blocks.model(), p, h) ==> peer_has(final(self).peer_blocks.model(), p, h),
            forall|p: Seq<char>, h: Seq<char>| peer_has(final(self).peer_blocks.model(), p, h) ==> peer_has(old(self).peer_blocks.model(), p, h)
                || (p == peer_id@ && h == block_hash@),
    {
        let hash = block_hash.to_owned();
        let ghost m0 = self.peer_blocks.model();
        match self.peer_blocks.position_of(peer_id) {
            Some(i) => {
                let mut sent = self.peer_blocks.replace_at(i, Vec::new());
                let ghost before = sent;
                if !list_contains(&sent, &hash) {
                    sent.push(hash);
                    assert(hashes_of(sent) =~= hashes_of(before).push(block_hash@));
                }
                let ghost mid = self.peer_blocks.model();
                self.peer_blocks.replace_at(i, sent);
                proof {
                    let m = self.peer_blocks.model();
                    assert(m =~= m0.update(i as int, (peer_id@, sent)));
                    assert(is_first(m, peer_id@, i as int));
                    crate::table::lemma_lookup_at(m, peer_id@, i as int);
                    crate::table::lemma_lookup_at(m0, peer_id@, i as int);
                    assert(hashes_of(sent).contains(block_hash@)) by {
                        if hashes_of(before).contains(block_hash@) {
                            assert(sent == before);
                        } else {
                            assert(hashes_of(sent)[hashes_of(sent).len() - 1] == block_hash@);
                        }
                    }
                    assert forall|p: Seq<char>, h: Seq<char>| peer_has(m0, p, h) implies peer_has(m, p, h) by {
                        if p != peer_id@ {
                            lemma_update_other(m0, i as int, sent, p);
                        } else {
                            let k = choose|k: int| 0 <= k < hashes_of(before).len() && hashes_of(before)[k] == h;
                            assert(hashes_of(sent)[k] == h);
                        }
                    }
                    assert forall|p: Seq<char>, h: Seq<char>| peer_has(m, p, h) implies peer_has(m0, p, h)
                        || (p == peer_id@ && h == block_hash@) by {
                        if p != peer_id@ {
                            lemma_update_other(m0, i as int, sent, p);
                        } else {
                            let k = choose|k: int| 0 <= k < hashes_of(sent).len() && hashes_of(sent)[k] == h;
                            if k < hashes_of(before).len() {
                                assert(hashes_of(before)[k] == h);
                            }
                        }
                    }
                }
            },
            None => {
                let mut sent: Vec<String> = Vec::new();
                sent.push(hash);
                let ghost s = sent;
                self.peer_blocks.insert(peer_id.to_owned(), sent);
                proof {
                    crate::table::lemma_lookup_put(m0, peer_id@, s);
                    assert(hashes_of(s)[0] == block_hash@);
                    assert forall|p: Seq<char>, h: Seq<char>| peer_has(m0, p, h) implies peer_has(self.peer_blocks.model(), p, h) by {
                        if p != peer_id@ {
                            crate::table::lemma_put_other(m0, peer_id@, s, p);
                        }
                    }
                    assert forall|p: Seq<char>, h: Seq<char>| peer_has(self.peer_blocks.model(), p, h) implies peer_has(m0, p, h)
                        || (p == peer_id@ && h == block_hash@) by {
                        if p != peer_id@ {
                            crate::table::lemma_put_other(m0, peer_id@, s, p);
                        } else {
                            assert(hashes_of(s).len() == 1);
                        }
                    }
                }
            },
        }
    }

    /// Whether `block_hash` was sent to `peer_id`.
    pub fn peer_has_block(&self, peer_id: &str, block_hash: &str) -> (r: bool)
        ensures
            r == peer_has(self.peer_blocks.model(), peer_id@, block_hash@),
    {
        let hash = block_hash.to_owned();
        match self.peer_blocks.get(peer_id) {
            Some(sent) => list_contains(sent, &hash),
            None => false,
        }
    }
}

/// Replacing the value at the first position of one key leaves the lookup
/// of every other key as it was.
proof fn lemma_update_other(
    s: Seq<(Seq<char>, Vec<String>)>,
    i: int,
    v: Vec<String>,
    other: Seq<char>,
)
    requires
        is_first(s, s[i].0, i),
        s[i].0 != other,
    ensures
        lookup(s.update(i, (s[i].0, v)), other) == lookup(s, other),
{
    crate::table::lemma_put_other(s, s[i].0, v, other);
    crate::table::lemma_first_unique(s, s[i].0, i);
    assert(put(s, s[i].0, v) == s.update(i, (s[i].0, v)));
}

} // verus!
