use crate::table::{has_key, lookup, put, AddressTable};
use vstd::prelude::*;

verus! {

/// Settings of the finality gadget.
#[derive(Debug, Clone, Copy)]
pub struct FinalityConfig {
    /// Time after which a view is abandoned, in milliseconds.
    pub view_timeout_ms: u64,
    /// Fewest validators the gadget is meant to run with.
    pub min_validators: usize,
    /// Whether consensus rounds are pipelined.
    pub pipelined: bool,
}

impl FinalityConfig {
    /// A one-second view timeout, four validators, pipelined.
    pub fn new() -> (r: Self)
        ensures
            r.view_timeout_ms == 1000,
            r.min_validators == 4,
            r.pipelined,
    {
        FinalityConfig { view_timeout_ms: 1000, min_validators: 4, pipelined: true }
    }
}

impl Default for FinalityConfig {
    fn default() -> (r: Self)
        ensures
            r.view_timeout_ms == 1000,
            r.min_validators == 4,
            r.pipelined,
    {
        FinalityConfig::new()
    }
}

/// A validator's key, stake and whether it takes part.
#[derive(Debug)]
pub struct ValidatorInfo {
    pub pub_key: Vec<u8>,
    pub stake: u64,
    pub is_active: bool,
}

/// The validators, keyed by id.
#[derive(Debug)]
pub struct ValidatorSet {
    pub validators: AddressTable<ValidatorInfo>,
}

/// A proposed block for one view.
#[derive(Debug)]
pub struct Proposal {
    pub view: u64,
    pub block_hash: String,
    pub parent_hash: String,
    pub proposer: String,
    pub timestamp: u64,
    pub qc: Option<QuorumCertificate>,
}

/// Commit signatures of a quorum over one block in one view.
#[derive(Debug)]
pub struct QuorumCertificate {
    pub view: u64,
    pub block_hash: String,
    pub signatures: Vec<ValidatorSignature>,
    pub aggregated_stake: u128,
}

/// One validator's vote signature, with the stake it carries.
#[derive(Debug)]
pub struct ValidatorSignature {
    pub validator_id: String,
    pub signature: Vec<u8>,
    pub stake: u64,
}

/// The three voting phases.
#[derive(Debug, Clone, Copy, PartialEq, Eq, Structural)]
pub enum Phase {
    Prepare,
    PreCommit,
    Commit,
}

/// A vote in one phase of one view.
#[derive(Debug)]
pub enum Vote {
    Prepare { view: u64, block_hash: String, validator_id: String, signature: Vec<u8> },
    PreCommit { view: u64, block_hash: String, validator_id: String, signature: Vec<u8> },
    Commit { view: u64, block_hash: String, validator_id: String, signature: Vec<u8> },
}

/// The votes of one view, one table per phase, keyed by validator id.
#[derive(Debug)]
pub struct VoteCollection {
    pub prepare_votes: AddressTable<ValidatorSignature>,
    pub precommit_votes: AddressTable<ValidatorSignature>,
    pub commit_votes: AddressTable<ValidatorSignature>,
}

/// What a vote brought about.
#[derive(Debug)]
pub enum ConsensusResult {
    Pending,
    PrepareQuorum { view: u64, block_hash: String },
    PreCommitQuorum { view: u64, block_hash: String },
    Finalized { view: u64, block_hash: String, qc: QuorumCertificate },
}

/// The three-phase, stake-weighted vote over proposed blocks.
#[derive(Debug)]
pub struct FinalityGadget {
    pub current_view: u64,
    pub validators: ValidatorSet,
    pub proposals: Vec<Proposal>,
    pub votes: Vec<(u64, VoteCollection)>,
    pub finalized: Vec<(u64, String)>,
    pub config: FinalityConfig,
}

/// Stake of the active validators in a table.
pub open spec fn active_stake(s: Seq<(Seq<char>, ValidatorInfo)>) -> int
    decreases s.len(),
{
    if s.len() == 0 {
        0
    } else {
        active_stake(s.drop_last()) + if s.last().1.is_active {
            s.last().1.stake as int
        } else {
            0
        }
    }
}

/// Stake carried by the signatures in a table.
pub open spec fn vote_stake(s: Seq<(Seq<char>, ValidatorSignature)>) -> int
    decreases s.len(),
{
    if s.len() == 0 {
        0
    } else {
        vote_stake(s.drop_last()) + s.last().1.stake
    }
}

/// The quorum threshold over a total stake: more than two thirds.
pub open spec fn quorum_of(total: int) -> int {
    total * 2 / 3 + 1
}

/// The phase of a vote.
pub open spec fn phase_of(v: Vote) -> Phase {
    match v {
        Vote::Prepare { .. } => Phase::Prepare,
        Vote::PreCommit { .. } => Phase::PreCommit,
        Vote::Commit { .. } => Phase::Commit,
    }
}

/// The view, block hash, validator id and signature of a vote.
pub open spec fn vote_parts(v: Vote) -> (u64, String, String, Vec<u8>) {
    match v {
        Vote::Prepare { view, block_hash, validator_id, signature } => (view, block_hash, validator_id, signature),
        Vote::PreCommit { view, block_hash, validator_id, signature } => (view, block_hash, validator_id, signature),
        Vote::Commit { view, block_hash, validator_id, signature } => (view, block_hash, validator_id, signature),
    }
}

/// Whether `view` has a vote collection in `s`.
pub open spec fn has_view(s: Seq<(u64, VoteCollection)>, view: u64) -> bool {
    exists|i: int| 0 <= i < s.len() && s[i].0 == view
}

/// The position of `view`'s collection in `s`.
pub open spec fn view_index(s: Seq<(u64, VoteCollection)>, view: u64) -> int {
    choose|i: int| 0 <= i < s.len() && s[i].0 == view
}

/// Whether the views in `s` are distinct.
pub open spec fn views_distinct(s: Seq<(u64, VoteCollection)>) -> bool {
    forall|i: int, j: int| 0 <= i < j < s.len() ==> s[i].0 != s[j].0
}

/// The signatures of one phase of a collection.
pub open spec fn phase_votes(c: VoteCollection, p: Phase) -> Seq<(Seq<char>, ValidatorSignature)> {
    match p {
        Phase::Prepare => c.prepare_votes.model(),
        Phase::PreCommit => c.precommit_votes.model(),
        Phase::Commit => c.commit_votes.model(),
    }
}

/// The signatures of one phase of `view`, empty where the view has none.
pub open spec fn view_phase_votes(s: Seq<(u64, VoteCollection)>, view: u64, p: Phase) -> Seq<
    (Seq<char>, ValidatorSignature),
> {
    if has_view(s, view) {
        phase_votes(s[view_index(s, view)].1, p)
    } else {
        Seq::empty()
    }
}

/// Whether `(view, hash)` has been finalized.
pub open spec fn was_finalized(s: Seq<(u64, String)>, view: u64, hash: Seq<char>) -> bool {
    exists|i: int| 0 <= i < s.len() && s[i].0 == view && s[i].1@ == hash
}

/// Whether no `(view, block hash)` pair occurs twice in a finalization log.
pub open spec fn finalized_once(s: Seq<(u64, String)>) -> bool {
    forall|i: int, j: int| 0 <= i < j < s.len() ==> !(s[i].0 == s[j].0 && s[i].1@ == s[j].1@)
}

/// Whether a signature comes from a known, active validator and carries
/// that validator's stake.
pub open spec fn signer_valid(vs: Seq<(Seq<char>, ValidatorInfo)>, sig: ValidatorSignature) -> bool {
    match lookup(vs, sig.validator_id@) {
        Some(info) => info.is_active && info.stake == sig.stake,
        None => false,
    }
}

/// Whether a table of signatures is keyed by distinct validator ids, each
/// entry's key being its signer, and every signer valid in `vs`.
pub open spec fn table_sound(t: Seq<(Seq<char>, ValidatorSignature)>, vs: Seq<(Seq<char>, ValidatorInfo)>) -> bool {
    &&& forall|a: int, b: int| 0 <= a < b < t.len() ==> t[a].0 != t[b].0
    &&& forall|a: int| 0 <= a < t.len() ==> t[a].0 == (#[trigger] t[a].1).validator_id@ && signer_valid(vs, t[a].1)
}

/// Whether every table of every view's collection is sound in `vs`.
pub open spec fn votes_sound(votes: Seq<(u64, VoteCollection)>, vs: Seq<(Seq<char>, ValidatorInfo)>) -> bool {
    forall|i: int, p: Phase| 0 <= i < votes.len() ==> table_sound(#[trigger] phase_votes(votes[i].1, p), vs)
}

/// Whether the signers of a list of signatures are pairwise distinct.
pub open spec fn signers_distinct(s: Seq<ValidatorSignature>) -> bool {
    forall|a: int, b: int| 0 <= a < b < s.len() ==> s[a].validator_id@ != s[b].validator_id@
}

/// Recording a valid signature under its signer's id keeps a table sound.
proof fn lemma_put_sound(
    t: Seq<(Seq<char>, ValidatorSignature)>,
    vs: Seq<(Seq<char>, ValidatorInfo)>,
    sig: ValidatorSignature,
)
    requires
        table_sound(t, vs),
        signer_valid(vs, sig),
    ensures
        table_sound(put(t, sig.validator_id@, sig), vs),
{
    let k = sig.validator_id@;
    let u = put(t, k, sig);
    if has_key(t, k) {
        let w = choose|w: int| 0 <= w < t.len() && t[w].0 == k;
        crate::table::lemma_first_exists(t, k, w);
        let j = crate::table::first_index(t, k);
        assert forall|a: int| 0 <= a < u.len() implies u[a].0 == (#[trigger] u[a].1).validator_id@ && signer_valid(vs, u[a].1) by {
            if a != j {
                assert(u[a] == t[a]);
            }
        }
        assert forall|a: int, b: int| 0 <= a < b < u.len() implies u[a].0 != u[b].0 by {
            assert(u[a].0 == t[a].0 && u[b].0 == t[b].0);
        }
    } else {
        assert forall|a: int| 0 <= a < u.len() implies u[a].0 == (#[trigger] u[a].1).validator_id@ && signer_valid(vs, u[a].1) by {
            if a < t.len() {
                assert(u[a] == t[a]);
            }
        }
        assert forall|a: int, b: int| 0 <= a < b < u.len() implies u[a].0 != u[b].0 by {
            if b == t.len() {
                assert(u[a] == t[a]);
            } else {
                assert(u[a] == t[a] && u[b] == t[b]);
            }
        }
    }
}

/// The ids and stakes of a list of signatures.
pub open spec fn signers_of(s: Seq<ValidatorSignature>) -> Seq<(Seq<char>, u64)> {
    s.map_values(|v: ValidatorSignature| (v.validator_id@, v.stake))
}

/// The ids and stakes of a table of signatures.
pub open spec fn signers_in(s: Seq<(Seq<char>, ValidatorSignature)>) -> Seq<(Seq<char>, u64)> {
    s.map_values(|e: (Seq<char>, ValidatorSignature)| (e.1.validator_id@, e.1.stake))
}

/// In a list of distinct views, a position holding `view` is the position of `view`.
proof fn lemma_view_index(s: Seq<(u64, VoteCollection)>, view: u64, i: int)
    requires
        views_distinct(s),
        0 <= i < s.len(),
        s[i].0 == view,
    ensures
        has_view(s, view),
        view_index(s, view) == i,
{
    assert(has_view(s, view));
    let k = view_index(s, view);
    if k < i {
        assert(s[k].0 != s[i].0);
    } else if k > i {
        assert(s[i].0 != s[k].0);
    }
}

/// Removing the collection at `i` keeps the views distinct, drops the view
/// at `i`, and leaves every other view's votes as they were.
proof fn lemma_remove_view(s: Seq<(u64, VoteCollection)>, i: int)
    requires
        views_distinct(s),
        0 <= i < s.len(),
    ensures
        views_distinct(s.remove(i)),
        !has_view(s.remove(i), s[i].0),
        forall|v: u64, p: Phase| v != s[i].0 ==> view_phase_votes(s.remove(i), v, p) == view_phase_votes(s, v, p),
{
    let t = s.remove(i);
    assert forall|a: int, b: int| 0 <= a < b < t.len() implies t[a].0 != t[b].0 by {
        let a2 = if a < i { a } else { a + 1 };
        let b2 = if b < i { b } else { b + 1 };
        assert(t[a] == s[a2] && t[b] == s[b2]);
    }
    assert forall|j: int| 0 <= j < t.len() implies t[j].0 != s[i].0 by {
        let j2 = if j < i { j } else { j + 1 };
        assert(t[j] == s[j2]);
        if j2 < i { assert(s[j2].0 != s[i].0); } else { assert(s[i].0 != s[j2].0); }
    }
    assert forall|v: u64, p: Phase| v != s[i].0 implies view_phase_votes(t, v, p) == view_phase_votes(s, v, p) by {
        if has_view(s, v) {
            let k = view_index(s, v);
            assert(0 <= k < s.len() && s[k].0 == v);
            let k2 = if k < i { k } else { k - 1 };
            assert(t[k2] == s[k]);
            lemma_view_index(t, v, k2);
        } else {
            assert forall|j: int| 0 <= j < t.len() implies t[j].0 != v by {
                let j2 = if j < i { j } else { j + 1 };
                assert(t[j] == s[j2]);
            }
        }
    }
}

fn sum_vote_stake(t: &AddressTable<ValidatorSignature>) -> (r: u128)
    ensures
        r == vote_stake(t.model()),
{
    let mut total: u128 = 0;
    let mut i: usize = 0;
    while i < t.entries.len()
        invariant
            0 <= i <= t.entries@.len(),
            total == vote_stake(t.model().subrange(0, i as int)),
            total <= i * 18446744073709551615,
        decreases t.entries@.len() - i,
    {
        assert(t.model().subrange(0, i + 1).drop_last() =~= t.model().subrange(0, i as int));
        total = total + t.entries[i].1.stake as u128;
        i += 1;
    }
    assert(t.model().subrange(0, i as int) =~= t.model());
    total
}

fn clone_signature(s: &ValidatorSignature) -> (r: ValidatorSignature)
    ensures
        r.validator_id@ == s.validator_id@,
        r.signature@ == s.signature@,
        r.stake == s.stake,
{
    ValidatorSignature { validator_id: s.validator_id.clone(), signature: s.signature.clone(), stake: s.stake }
}

impl ValidatorSet {
    /// An empty set.
    pub fn new() -> (r: Self)
        ensures
            r.validators.model().len() == 0,
    {
        ValidatorSet { validators: AddressTable::new() }
    }

    /// Adds a validator, replacing any earlier one with the same id.
    pub fn add_validator(&mut self, id: String, info: ValidatorInfo)
        ensures
            final(self).validators.model() == put(old(self).validators.model(), id@, info),
    {
        self.validators.insert(id, info);
    }

    /// Total stake of the active validators.
    pub fn total_stake(&self) -> (r: u128)
        ensures
            r == active_stake(self.validators.model()),
    {
        let m = &self.validators.entries;
        let mut total: u128 = 0;
        let mut i: usize = 0;
        while i < m.len()
            invariant
                m == &self.validators.entries,
                0 <= i <= m@.len(),
                total == active_stake(self.validators.model().subrange(0, i as int)),
                total <= i * 18446744073709551615,
            decreases m@.len() - i,
        {
            assert(self.validators.model().subrange(0, i + 1).drop_last() =~= self.validators.model().subrange(0, i as int));
            if m[i].1.is_active {
                total = total + m[i].1.stake as u128;
            }
            i += 1;
        }
        assert(self.validators.model().subrange(0, i as int) =~= self.validators.model());
        total
    }

    /// More than two thirds of the active stake: `2 * total / 3 + 1`.
    pub fn quorum_threshold(&self) -> (r: u128)
        ensures
            r == quorum_of(active_stake(self.validators.model())),
    {
        let total = self.total_stake();
        proof {
            assert(active_stake(self.validators.model()) * 2 / 3 + 1 <= u128::MAX) by (nonlinear_arith)
                requires
                    active_stake(self.validators.model()) <= u128::MAX,
                    active_stake(self.validators.model()) >= 0,
            ;
        }
        total / 3 * 2 + (total % 3) * 2 / 3 + 1
    }

    /// Whether `stake` reaches the quorum threshold.
    pub fn has_quorum(&self, stake: u128) -> (r: bool)
        ensures
            r == (stake >= quorum_of(active_stake(self.validators.model()))),
    {
        stake >= self.quorum_threshold()
    }
}

impl VoteCollection {
    /// A collection with no votes.
    pub fn new() -> (r: Self)
        ensures
            r.prepare_votes.model().len() == 0,
            r.precommit_votes.model().len() == 0,
            r.commit_votes.model().len() == 0,
    {
        VoteCollection {
            prepare_votes: AddressTable::new(),
            precommit_votes: AddressTable::new(),
            commit_votes: AddressTable::new(),
        }
    }

    /// Stake behind the prepare votes.
    pub fn total_prepare_stake(&self) -> (r: u128)
        ensures
            r == vote_stake(self.prepare_votes.model()),
    {
        sum_vote_stake(&self.prepare_votes)
    }

    /// Stake behind the pre-commit votes.
    pub fn total_precommit_stake(&self) -> (r: u128)
        ensures
            r == vote_stake(self.precommit_votes.model()),
    {
        sum_vote_stake(&self.precommit_votes)
    }

    /// Stake behind the commit votes.
    pub fn total_commit_stake(&self) -> (r: u128)
        ensures
            r == vote_stake(self.commit_votes.model()),
    {
        sum_vote_stake(&self.commit_votes)
    }
}

impl FinalityGadget {
    /// Vote collections are held once per view, and no block is finalized
    /// twice in one view: at most one `Finalized` per view and block hash.
    pub open spec fn wf(&self) -> bool {
        &&& views_distinct(self.votes@)
        &&& finalized_once(self.finalized@)
        &&& votes_sound(self.votes@, self.validators.validators.model())
    }

    /// A gadget at view zero with no validators, proposals or votes.
    pub fn new(config: FinalityConfig) -> (r: Self)
        ensures
            r.wf(),
            r.current_view == 0,
            r.validators.validators.model().len() == 0,
            r.votes@.len() == 0,
            r.finalized@.len() == 0,
    {
        FinalityGadget {
            current_view: 0,
            validators: ValidatorSet::new(),
            proposals: Vec::new(),
            votes: Vec::new(),
            finalized: Vec::new(),
            config,
        }
    }

    /// Replaces the validator set. Votes counted under the old set are
    /// discarded, since their signers may no longer be known or active.
    pub fn init_validators(&mut self, validators: ValidatorSet)
        requires
            old(self).wf(),
        ensures
            final(self).wf(),
            final(self).validators == validators,
            final(self).votes@.len() == 0,
            final(self).finalized == old(self).finalized,
            final(self).current_view == old(self).current_view,
    {
        self.validators = validators;
        self.votes = Vec::new();
    }

    fn find_view(&self, view: u64) -> (r: Option<usize>)
        requires
            self.wf(),
        ensures
            match r {
                Some(i) => i < self.votes@.len() && self.votes@[i as int].0 == view && has_view(self.votes@, view)
                    && view_index(self.votes@, view) == i,
                None => !has_view(self.votes@, view),
            },
    {
        let mut i: usize = 0;
        while i < self.votes.len()
            invariant
                views_distinct(self.votes@),
                0 <= i <= self.votes@.len(),
                forall|j: int| 0 <= j < i ==> self.votes@[j].0 != view,
            decreases self.votes@.len() - i,
        {
            if self.votes[i].0 == view {
                proof {
                    lemma_view_index(self.votes@, view, i as int);
                }
                return Some(i);
            }
            i += 1;
        }
        None
    }

    /// Records a proposal and starts an empty vote collection for its view.
    pub fn propose_block(&mut self, proposal: Proposal)
        requires
            old(self).wf(),
        ensures
            final(self).wf(),
            has_view(final(self).votes@, proposal.view),
            forall|p: Phase| view_phase_votes(final(self).votes@, proposal.view, p).len() == 0,
            final(self).finalized == old(self).finalized,
            final(self).current_view == old(self).current_view,
    {
        let view = proposal.view;
        self.proposals.push(proposal);
        match self.find_view(view) {
            Some(i) => {
                self.votes.remove(i);
                self.votes.insert(i, (view, VoteCollection::new()));
                assert(self.votes@[i as int].0 == view);
            },
            None => {
                self.votes.push((view, VoteCollection::new()));
                assert(self.votes@[self.votes@.len() - 1].0 == view);
            },
        }
        assert forall|p: Phase| view_phase_votes(self.votes@, view, p).len() == 0 by {
            let k = view_index(self.votes@, view);
            assert(self.votes@[k].0 == view);
        }
    }

    fn is_finalized(&self, view: u64, block_hash: &String) -> (r: bool)
        ensures
            r == was_finalized(self.finalized@, view, block_hash@),
    {
        let mut i: usize = 0;
        while i < self.finalized.len()
            invariant
                0 <= i <= self.finalized@.len(),
                forall|j: int| 0 <= j < i ==> !(self.finalized@[j].0 == view && self.finalized@[j].1@ == block_hash@),
            decreases self.finalized@.len() - i,
        {
            if self.finalized[i].0 == view && self.finalized[i].1 == *block_hash {
                return true;
            }
            i += 1;
        }
        false
    }

    /// Counts a vote. A vote from an unknown or inactive validator changes
    /// nothing and yields `Pending`. Otherwise it is recorded in its phase
    /// of its view, replacing that validator's earlier vote there; when the
    /// phase's stake then reaches the quorum threshold the matching quorum
    /// is reported. A commit quorum finalizes the block with a certificate
    /// of the commit signatures, once per view and block hash.
    pub fn process_vote(&mut self, vote: Vote) -> (r: ConsensusResult)
        requires
            old(self).wf(),
        ensures
            final(self).wf(),
            final(self).current_view == old(self).current_view,
            final(self).validators == old(self).validators,
            ({
                let (view, hash, id, sig) = vote_parts(vote);
                let p = phase_of(vote);
                let q = quorum_of(active_stake(old(self).validators.validators.model()));
                match lookup(old(self).validators.validators.model(), id@) {
                    Some(info) if info.is_active => {
                        let votes = put(view_phase_votes(old(self).votes@, view, p), id@,
                            ValidatorSignature { validator_id: id, signature: sig, stake: info.stake });
                        &&& view_phase_votes(final(self).votes@, view, p) == votes
                        &&& match r {
                            ConsensusResult::Pending => {
                                &&& vote_stake(votes) < q || (p == Phase::Commit && was_finalized(old(self).finalized@, view, hash@))
                                &&& final(self).finalized == old(self).finalized
                            },
                            ConsensusResult::PrepareQuorum { view: v, block_hash: h } => {
                                &&& p == Phase::Prepare && v == view && h == hash && vote_stake(votes) >= q
                                &&& final(self).finalized == old(self).finalized
                            },
                            ConsensusResult::PreCommitQuorum { view: v, block_hash: h } => {
                                &&& p == Phase::PreCommit && v == view && h == hash && vote_stake(votes) >= q
                                &&& final(self).finalized == old(self).finalized
                            },
                            ConsensusResult::Finalized { view: v, block_hash: h, qc } => {
                                &&& p == Phase::Commit && v == view && h@ == hash@
                                &&& vote_stake(votes) >= q
                                &&& !was_finalized(old(self).finalized@, view, hash@)
                                &&& final(self).finalized@.len() == old(self).finalized@.len() + 1
                                &&& final(self).finalized@.drop_last() == old(self).finalized@
                                &&& final(self).finalized@.last().0 == view
                                &&& final(self).finalized@.last().1@ == hash@
                                &&& qc.view == view && qc.block_hash@ == hash@
                                &&& qc.aggregated_stake == vote_stake(votes)
                                &&& signers_of(qc.signatures@) == signers_in(votes)
                                &&& signers_distinct(qc.signatures@)
                                &&& forall|a: int| 0 <= a < qc.signatures@.len() ==> #[trigger] signer_valid(
                                    old(self).validators.validators.model(), qc.signatures@[a])
                            },
                        }
                        &&& (p == Phase::Prepare ==> (r is PrepareQuorum <==> vote_stake(votes) >= q))
                        &&& (p == Phase::PreCommit ==> (r is PreCommitQuorum <==> vote_stake(votes) >= q))
                        &&& (p == Phase::Commit ==> (r is Finalized <==> (vote_stake(votes) >= q
                            && !was_finalized(old(self).finalized@, view, hash@))))
                    },
                    _ => {
                        &&& r is Pending
                        &&& final(self).votes == old(self).votes
                        &&& final(self).finalized == old(self).finalized
                    },
                }
            }),
    {
        let ghost phase = phase_of(vote);
        let (kind, view, block_hash, validator_id, signature) = match vote {
            Vote::Prepare { view, block_hash, validator_id, signature } => (Phase::Prepare, view, block_hash, validator_id, signature),
            Vote::PreCommit { view, block_hash, validator_id, signature } => (Phase::PreCommit, view, block_hash, validator_id, signature),
            Vote::Commit { view, block_hash, validator_id, signature } => (Phase::Commit, view, block_hash, validator_id, signature),
        };
        let stake = match self.validators.validators.get(validator_id.as_str()) {
            Some(info) => {
                if !info.is_active {
                    return ConsensusResult::Pending;
                }
                info.stake
            },
            None => return ConsensusResult::Pending,
        };
        let ghost before = self.votes@;
        let idx = self.find_view(view);
        let mut collection = match idx {
            Some(i) => {
                proof {
                    lemma_remove_view(before, i as int);
                }
                let (_, c) = self.votes.remove(i);
                c
            },
            None => VoteCollection::new(),
        };
        let ghost old_votes = phase_votes(collection, kind);
        let ghost c0 = collection;
        let ghost vs = self.validators.validators.model();
        assert(old_votes == view_phase_votes(before, view, kind));
        proof {
            assert forall|p: Phase| table_sound(#[trigger] phase_votes(c0, p), vs) by {
                match idx {
                    Some(i) => {
                        assert(phase_votes(before[i as int].1, p) == phase_votes(c0, p));
                    },
                    None => {},
                }
            }
        }
        let entry = ValidatorSignature { validator_id: validator_id.clone(), signature, stake };
        proof {
            assert(signer_valid(vs, entry));
            lemma_put_sound(old_votes, vs, entry);
        }
        let phase_stake = match kind {
            Phase::Prepare => {
                collection.prepare_votes.insert(validator_id, entry);
                collection.total_prepare_stake()
            },
            Phase::PreCommit => {
                collection.precommit_votes.insert(validator_id, entry);
                collection.total_precommit_stake()
            },
            Phase::Commit => {
                collection.commit_votes.insert(validator_id, entry);
                collection.total_commit_stake()
            },
        };
        let reached = self.validators.has_quorum(phase_stake);
        let result = if reached {
            match kind {
                Phase::Prepare => ConsensusResult::PrepareQuorum { view, block_hash },
                Phase::PreCommit => ConsensusResult::PreCommitQuorum { view, block_hash },
                Phase::Commit => {
                    if self.is_finalized(view, &block_hash) {
                        ConsensusResult::Pending
                    } else {
                        let mut signatures: Vec<ValidatorSignature> = Vec::new();
                        let mut k: usize = 0;
                        while k < collection.commit_votes.entries.len()
                            invariant
                                0 <= k <= collection.commit_votes.entries@.len(),
                                signers_of(signatures@) =~= signers_in(collection.commit_votes.model()).subrange(0, k as int),
                            decreases collection.commit_votes.entries@.len() - k,
                        {
                            let s = clone_signature(&collection.commit_votes.entries[k].1);
                            let ghost prev = signatures@;
                            signatures.push(s);
                            assert(signers_of(signatures@) =~= signers_of(prev).push((s.validator_id@, s.stake)));
                            k += 1;
                        }
                        assert(signers_in(collection.commit_votes.model()).subrange(0, k as int) =~= signers_in(collection.commit_votes.model()));
                        proof {
                            let t = collection.commit_votes.model();
                            assert(table_sound(t, vs));
                            assert forall|a: int| 0 <= a < signatures@.len() implies #[trigger] signer_valid(vs, signatures@[a]) by {
                                assert(signers_of(signatures@)[a] == signers_in(t)[a]);
                                assert(signer_valid(vs, t[a].1));
                            }
                            assert forall|a: int, b: int| 0 <= a < b < signatures@.len() implies
                                signatures@[a].validator_id@ != signatures@[b].validator_id@ by {
                                assert(signers_of(signatures@)[a] == signers_in(t)[a]);
                                assert(signers_of(signatures@)[b] == signers_in(t)[b]);
                                assert(t[a].0 == t[a].1.validator_id@);
                                assert(t[b].0 == t[b].1.validator_id@);
                            }
                        }
                        let ghost fin_before = self.finalized@;
                        self.finalized.push((view, block_hash.clone()));
                        assert(self.finalized@.drop_last() =~= fin_before);
                        assert(finalized_once(self.finalized@)) by {
                            assert forall|a: int, b: int| 0 <= a < b < self.finalized@.len() implies
                                !(self.finalized@[a].0 == self.finalized@[b].0 && self.finalized@[a].1@ == self.finalized@[b].1@) by {
                                if b == fin_before.len() {
                                    assert(self.finalized@[a] == fin_before[a]);
                                } else {
                                    assert(self.finalized@[a] == fin_before[a] && self.finalized@[b] == fin_before[b]);
                                }
                            }
                        }
                        let qc = QuorumCertificate { view, block_hash: block_hash.clone(), signatures, aggregated_stake: phase_stake };
                        ConsensusResult::Finalized { view, block_hash, qc }
                    }
                },
            }
        } else {
            ConsensusResult::Pending
        };
        let ghost coll = collection;
        assert forall|p: Phase| table_sound(#[trigger] phase_votes(coll, p), vs) by {
            if p != kind {
                assert(phase_votes(coll, p) == phase_votes(c0, p));
            }
        }
        match idx {
            Some(i) => {
                let ghost removed = self.votes@;
                self.votes.insert(i, (view, collection));
                assert(self.votes@ =~= before.update(i as int, (view, coll)));
                proof {
                    assert forall|a: int, b: int| 0 <= a < b < self.votes@.len() implies self.votes@[a].0 != self.votes@[b].0 by {
                        if a != i && b != i {
                            assert(before[a].0 != before[b].0);
                        } else if a == i {
                            assert(before[a].0 != before[b].0);
                        } else {
                            assert(before[a].0 != before[b].0);
                        }
                    }
                    lemma_view_index(self.votes@, view, i as int);
                    assert forall|a: int, p: Phase| 0 <= a < self.votes@.len() implies table_sound(#[trigger] phase_votes(self.votes@[a].1, p), vs) by {
                        if a != i {
                            assert(self.votes@[a] == before[a]);
                        }
                    }
                }
            },
            None => {
                self.votes.push((view, collection));
                proof {
                    assert forall|a: int, b: int| 0 <= a < b < self.votes@.len() implies self.votes@[a].0 != self.votes@[b].0 by {
                        if b < before.len() {
                            assert(before[a].0 != before[b].0);
                        } else {
                            assert(self.votes@[a] == before[a]);
                        }
                    }
                    lemma_view_index(self.votes@, view, before.len() as int);
                    assert forall|a: int, p: Phase| 0 <= a < self.votes@.len() implies table_sound(#[trigger] phase_votes(self.votes@[a].1, p), vs) by {
                        if a < before.len() {
                            assert(self.votes@[a] == before[a]);
                        }
                    }
                }
            },
        }
        result
    }

    /// Abandons the current view, discarding its votes, and moves to the next.
    pub fn advance_view(&mut self) -> (r: u64)
        requires
            old(self).wf(),
            old(self).current_view < u64::MAX,
        ensures
            final(self).wf(),
            r == old(self).current_view + 1,
            final(self).current_view == r,
            !has_view(final(self).votes@, old(self).current_view),
            forall|v: u64, p: Phase| v != old(self).current_view ==> view_phase_votes(final(self).votes@, v, p)
                == view_phase_votes(old(self).votes@, v, p),
            final(self).finalized == old(self).finalized,
    {
        let abandoned = self.current_view;
        match self.find_view(abandoned) {
            Some(i) => {
                proof {
                    lemma_remove_view(self.votes@, i as int);
                }
                self.votes.remove(i);
            },
            None => {},
        }
        self.current_view = self.current_view + 1;
        self.current_view
    }

    /// The current view.
    pub fn get_current_view(&self) -> (r: u64)
        ensures
            r == self.current_view,
    {
        self.current_view
    }
}

} // verus!
