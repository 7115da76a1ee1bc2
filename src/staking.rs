use crate::emission::{after_mint, halved, lemma_halved_le, lemma_halved_zero, minted_at, EmissionSchedule};
use crate::transaction::COIN;
use vstd::utf8::encode_utf8;
use vstd::prelude::*;

verus! {

/// How block rewards are split. Amounts are base units; shares and rates
/// are fixed-point with `COIN` standing for 1.
#[derive(Debug, Clone, Copy)]
pub struct BlockRewardConfig {
    pub initial_reward: u128,
    pub halving_interval: u64,
    pub validator_share: u128,
    pub sequencer_share: u128,
    pub treasury_share: u128,
}

impl BlockRewardConfig {
    /// 79.3 coins per block halving every 63 072 000 blocks, split 70% to
    /// validators, 20% to sequencers and 10% to the treasury.
    pub fn new() -> (r: Self)
        ensures
            r.initial_reward == 79_300_000_000_000_000_000,
            r.halving_interval == 63_072_000,
            r.validator_share == 700_000_000_000_000_000,
            r.sequencer_share == 200_000_000_000_000_000,
            r.treasury_share == 100_000_000_000_000_000,
    {
        BlockRewardConfig {
            initial_reward: 79_300_000_000_000_000_000,
            halving_interval: 63_072_000,
            validator_share: 700_000_000_000_000_000,
            sequencer_share: 200_000_000_000_000_000,
            treasury_share: 100_000_000_000_000_000,
        }
    }
}

impl Default for BlockRewardConfig {
    fn default() -> (r: Self)
        ensures
            r.initial_reward == 79_300_000_000_000_000_000,
            r.halving_interval == 63_072_000,
    {
        BlockRewardConfig::new()
    }
}

/// A validator's own stake and its delegations, in whole coins, and the
/// commission it takes from its delegators' part.
#[derive(Debug, Clone)]
pub struct ValidatorStake {
    pub operator: String,
    pub self_stake: u64,
    pub delegated_stake: u64,
    pub commission_rate: u128,
    pub delegators: Vec<(String, u64)>,
}

/// The validators and the treasury.
#[derive(Debug)]
pub struct StakingRewards {
    pub config: BlockRewardConfig,
    pub validators: Vec<ValidatorStake>,
    pub treasury_balance: u128,
    pub genesis_height: u64,
}

/// One validator's part of a block reward.
#[derive(Debug)]
pub struct ValidatorReward {
    pub operator_reward: u128,
    pub delegator_rewards: Vec<(String, u128)>,
}

/// How one block reward was split.
#[derive(Debug)]
pub struct BlockRewardDistribution {
    pub total_reward: u128,
    pub validator_rewards: Vec<(String, ValidatorReward)>,
    pub sequencer_rewards: Vec<(String, u128)>,
    pub treasury_amount: u128,
}

/// Sum of the amounts in a list of payouts.
pub open spec fn payout_sum(s: Seq<(String, u128)>) -> int
    decreases s.len(),
{
    if s.len() == 0 {
        0
    } else {
        payout_sum(s.drop_last()) + s.last().1
    }
}

/// Sum of the stakes of a list of delegations.
pub open spec fn delegation_sum(s: Seq<(String, u64)>) -> int
    decreases s.len(),
{
    if s.len() == 0 {
        0
    } else {
        delegation_sum(s.drop_last()) + s.last().1
    }
}

/// Whether byte string `a` sorts before `b`: lexicographically, a proper
/// prefix first. On UTF-8 this is the order of `String`.
pub open spec fn text_lt(a: Seq<u8>, b: Seq<u8>) -> bool
    decreases a.len(),
{
    if a.len() == 0 {
        b.len() > 0
    } else if b.len() == 0 {
        false
    } else if a[0] != b[0] {
        a[0] < b[0]
    } else {
        text_lt(a.drop_first(), b.drop_first())
    }
}

/// The UTF-8 bytes of a validator's operator id.
pub open spec fn operator_key(v: ValidatorStake) -> Seq<u8> {
    encode_utf8(v.operator@)
}

/// `x` times the fixed-point ratio `ratio` (with `COIN` standing for 1),
/// rounded down, computed without overflow.
pub fn mul_ratio(x: u128, ratio: u128) -> (r: u128)
    requires
        ratio <= COIN,
    ensures
        r == x * ratio / (COIN as int),
        r <= x,
{
    let q = x / COIN;
    let rem = x % COIN;
    proof {
        let c = COIN as int;
        vstd::arithmetic::div_mod::lemma_fundamental_div_mod(x as int, c);
        assert(rem * ratio <= rem * COIN) by (nonlinear_arith)
            requires ratio <= COIN;
        assert(rem * COIN < COIN * COIN) by (nonlinear_arith)
            requires rem < COIN;
        let rr = rem * ratio;
        vstd::arithmetic::div_mod::lemma_fundamental_div_mod(rr, c);
        assert(x * ratio == q * ratio * c + rr) by (nonlinear_arith)
            requires x == c * q + rem, rr == rem * ratio;
        assert(x * ratio == (q * ratio + rr / c) * c + rr % c) by (nonlinear_arith)
            requires x * ratio == q * ratio * c + rr, rr == c * (rr / c) + rr % c;
        vstd::arithmetic::div_mod::lemma_fundamental_div_mod_converse_div(x * ratio, c, q * ratio + rr / c, rr % c);
        assert(x * ratio <= x * c) by (nonlinear_arith)
            requires ratio <= c, x >= 0;
        assert(x * ratio / c <= x) by (nonlinear_arith)
            requires x * ratio <= x * c, c > 0;
        assert(q * ratio <= q * c) by (nonlinear_arith)
            requires ratio <= c, q >= 0;
    }
    q * ratio + rem * ratio / COIN
}

fn bytes_lt(a: &[u8], b: &[u8]) -> (r: bool)
    ensures
        r == text_lt(a@, b@),
{
    let mut i: usize = 0;
    assert(a@.subrange(0, a@.len() as int) =~= a@);
    assert(b@.subrange(0, b@.len() as int) =~= b@);
    while i < a.len() && i < b.len() && a[i] == b[i]
        invariant
            0 <= i <= a@.len(),
            i <= b@.len(),
            text_lt(a@, b@) == text_lt(a@.subrange(i as int, a@.len() as int), b@.subrange(i as int, b@.len() as int)),
        decreases a@.len() - i,
    {
        proof {
            let sa = a@.subrange(i as int, a@.len() as int);
            let sb = b@.subrange(i as int, b@.len() as int);
            assert(sa.drop_first() =~= a@.subrange(i + 1, a@.len() as int));
            assert(sb.drop_first() =~= b@.subrange(i + 1, b@.len() as int));
        }
        i += 1;
    }
    if i == a.len() {
        i < b.len()
    } else if i == b.len() {
        false
    } else {
        a[i] < b[i]
    }
}

/// Stake that `who` has delegated in a list of delegations.
pub open spec fn delegated_by(s: Seq<(String, u64)>, who: Seq<char>) -> int
    decreases s.len(),
{
    if s.len() == 0 {
        0
    } else {
        delegated_by(s.drop_last(), who) + if s.last().0@ == who { s.last().1 as int } else { 0 }
    }
}

/// What one validator's reward pays out: operator and delegators.
pub open spec fn validator_payout(r: ValidatorReward) -> int {
    r.operator_reward + payout_sum(r.delegator_rewards@)
}

/// What a list of validator rewards pays out.
pub open spec fn validators_payout(s: Seq<(String, ValidatorReward)>) -> int
    decreases s.len(),
{
    if s.len() == 0 {
        0
    } else {
        validators_payout(s.drop_last()) + validator_payout(s.last().1)
    }
}

/// Total stake of a list of validators.
pub open spec fn network_stake(s: Seq<ValidatorStake>) -> int
    decreases s.len(),
{
    if s.len() == 0 {
        0
    } else {
        network_stake(s.drop_last()) + s.last().self_stake + s.last().delegated_stake
    }
}

/// A validator's part of the validator pool: the pool times its share of
/// the total stake, rounded down; nothing when there is no stake.
pub open spec fn validator_part(pool: int, v: ValidatorStake, total_stake: int) -> int {
    if total_stake == 0 {
        0
    } else {
        pool * (v.self_stake + v.delegated_stake) / total_stake
    }
}

/// How a reward `total_reward` is split over `validators` and `n_seq`
/// sequencers: one entry per validator, in order, paying its stake share
/// of the validator pool to its operator (base share plus commission, and
/// the rounding left over) and its delegators (pro rata); equal shares of
/// the sequencer pool; and the rest, at least the treasury's share, to the
/// treasury.
pub open spec fn reward_split(
    validators: Seq<ValidatorStake>,
    config: BlockRewardConfig,
    total_reward: u128,
    n_seq: nat,
    r: BlockRewardDistribution,
) -> bool {
    let vpool = total_reward * config.validator_share / (COIN as int);
    let spool = total_reward * config.sequencer_share / (COIN as int);
    let stake = network_stake(validators);
    &&& r.validator_rewards@.len() == validators.len()
    &&& r.sequencer_rewards@.len() == n_seq
    &&& forall|i: int| 0 <= i < r.sequencer_rewards@.len() ==> #[trigger] r.sequencer_rewards@[i].1 == spool / (n_seq as int)
    &&& forall|j: int| 0 <= j < r.validator_rewards@.len() ==> {
        let v = validators[j];
        let part = validator_part(vpool, v, stake);
        let split = commission_split(v, part as u128);
        let vr = (#[trigger] r.validator_rewards@[j]).1;
        &&& r.validator_rewards@[j].0@ == v.operator@
        &&& validator_payout(vr) == part
        &&& vr.operator_reward == split.0 + (split.1 - payout_sum(vr.delegator_rewards@))
        &&& vr.delegator_rewards@.len() == v.delegators@.len()
        &&& forall|k: int| 0 <= k < vr.delegator_rewards@.len() ==> #[trigger] vr.delegator_rewards@[k].1
            == if v.delegated_stake > 0 { split.1 * v.delegators@[k].1 / (v.delegated_stake as int) } else { 0 }
    }
    &&& r.treasury_amount == total_reward - validators_payout(r.validator_rewards@) - payout_sum(r.sequencer_rewards@)
    &&& r.treasury_amount >= total_reward - vpool - spool
}

/// Everything a distribution hands out.
pub open spec fn distributed(d: BlockRewardDistribution) -> int {
    validators_payout(d.validator_rewards@) + payout_sum(d.sequencer_rewards@) + d.treasury_amount
}

proof fn lemma_delegation_prefix(s: Seq<(String, u64)>, i: int)
    requires
        0 <= i <= s.len(),
    ensures
        0 <= delegation_sum(s.subrange(0, i)) <= delegation_sum(s),
    decreases s.len() - i,
{
    if i == s.len() {
        assert(s.subrange(0, i) =~= s);
        lemma_delegation_nonneg(s);
    } else {
        lemma_delegation_prefix(s, i + 1);
        assert(s.subrange(0, i + 1).drop_last() =~= s.subrange(0, i));
        lemma_delegation_nonneg(s.subrange(0, i));
    }
}

proof fn lemma_delegation_nonneg(s: Seq<(String, u64)>)
    ensures
        delegation_sum(s) >= 0,
    decreases s.len(),
{
    if s.len() > 0 {
        lemma_delegation_nonneg(s.drop_last());
    }
}

proof fn lemma_delegation_update(s: Seq<(String, u64)>, j: int, x: (String, u64))
    requires
        0 <= j < s.len(),
    ensures
        delegation_sum(s.update(j, x)) == delegation_sum(s) - s[j].1 + x.1,
    decreases s.len(),
{
    if j == s.len() - 1 {
        assert(s.update(j, x).drop_last() =~= s.drop_last());
    } else {
        assert(s.update(j, x).drop_last() =~= s.drop_last().update(j, x));
        lemma_delegation_update(s.drop_last(), j, x);
    }
}

proof fn lemma_delegation_entry(s: Seq<(String, u64)>, j: int)
    requires
        0 <= j < s.len(),
    ensures
        s[j].1 <= delegation_sum(s),
    decreases s.len(),
{
    if j < s.len() - 1 {
        lemma_delegation_entry(s.drop_last(), j);
    } else {
        lemma_delegation_nonneg(s.drop_last());
    }
}

proof fn lemma_delegated_by_update(s: Seq<(String, u64)>, j: int, x: u64)
    requires
        0 <= j < s.len(),
    ensures
        forall|d: Seq<char>| #[trigger] delegated_by(s.update(j, (s[j].0, x)), d) == delegated_by(s, d)
            + if s[j].0@ == d { x - s[j].1 } else { 0 },
    decreases s.len(),
{
    let t = s.update(j, (s[j].0, x));
    if j == s.len() - 1 {
        assert(t.drop_last() =~= s.drop_last());
        assert(t.last() == (s[j].0, x));
        assert forall|d: Seq<char>| #[trigger] delegated_by(t, d) == delegated_by(s, d)
            + if s[j].0@ == d { x - s[j].1 } else { 0 } by {
        }
    } else {
        assert(t.drop_last() =~= s.drop_last().update(j, (s[j].0, x)));
        assert(s.drop_last()[j] == s[j]);
        assert(t.last() == s.last());
        lemma_delegated_by_update(s.drop_last(), j, x);
        assert forall|d: Seq<char>| #[trigger] delegated_by(t, d) == delegated_by(s, d)
            + if s[j].0@ == d { x - s[j].1 } else { 0 } by {
            assert(delegated_by(t.drop_last(), d) == delegated_by(s.drop_last(), d)
                + if s[j].0@ == d { x - s[j].1 } else { 0 });
        }
    }
}

proof fn lemma_delegated_by_absent(s: Seq<(String, u64)>, d: Seq<char>)
    requires
        forall|k: int| 0 <= k < s.len() ==> #[trigger] s[k].0@ != d,
    ensures
        delegated_by(s, d) == 0,
    decreases s.len(),
{
    if s.len() > 0 {
        lemma_delegated_by_absent(s.drop_last(), d);
    }
}

proof fn lemma_network_prefix(s: Seq<ValidatorStake>, i: int)
    requires
        0 <= i <= s.len(),
    ensures
        0 <= network_stake(s.subrange(0, i)) <= network_stake(s),
    decreases s.len() - i,
{
    if i == s.len() {
        assert(s.subrange(0, i) =~= s);
        lemma_network_nonneg(s);
    } else {
        lemma_network_prefix(s, i + 1);
        assert(s.subrange(0, i + 1).drop_last() =~= s.subrange(0, i));
        lemma_network_nonneg(s.subrange(0, i));
    }
}

proof fn lemma_network_nonneg(s: Seq<ValidatorStake>)
    ensures
        network_stake(s) >= 0,
    decreases s.len(),
{
    if s.len() > 0 {
        lemma_network_nonneg(s.drop_last());
    }
}

impl ValidatorStake {
    /// A validator's delegations add up to its delegated stake, and its
    /// commission rate is at most one.
    pub open spec fn wf(&self) -> bool {
        &&& delegation_sum(self.delegators@) == self.delegated_stake
        &&& self.commission_rate <= COIN
    }

    /// Own stake plus delegated stake.
    pub fn total_stake(&self) -> (r: u128)
        ensures
            r == self.self_stake + self.delegated_stake,
    {
        self.self_stake as u128 + self.delegated_stake as u128
    }
}

/// The operator's and the delegators' parts of `reward`: the operator gets
/// its stake's share and the commission on the rest, rounded down; the
/// delegators get what remains.
pub open spec fn commission_split(v: ValidatorStake, reward: u128) -> (int, int) {
    let stake = v.self_stake + v.delegated_stake;
    let op_base = if stake == 0 { reward as int } else { reward * v.self_stake / stake };
    let del_base = reward - op_base;
    let commission = del_base * v.commission_rate / (COIN as int);
    (op_base + commission, del_base - commission)
}

impl StakingRewards {
    /// Every validator is well formed.
    pub open spec fn wf(&self) -> bool {
        &&& forall|i: int| 0 <= i < self.validators@.len() ==> #[trigger] self.validators@[i].wf()
        &&& self.config.halving_interval > 0
    }

    /// No validators and an empty treasury.
    pub fn new(config: BlockRewardConfig, genesis_height: u64) -> (r: Self)
        requires
            config.halving_interval > 0,
        ensures
            r.wf(),
            r.config == config,
            r.validators@.len() == 0,
            r.treasury_balance == 0,
            r.genesis_height == genesis_height,
    {
        StakingRewards { config, validators: Vec::new(), treasury_balance: 0, genesis_height }
    }

    /// The initial reward halved once per interval since genesis.
    pub fn calculate_block_reward(&self, block_height: u64) -> (r: u128)
        requires
            self.wf(),
        ensures
            r == halved(
                self.config.initial_reward as nat,
                (if block_height > self.genesis_height { (block_height - self.genesis_height) as nat } else { 0nat })
                    / (self.config.halving_interval as nat),
            ),
    {
        let blocks = if block_height > self.genesis_height {
            block_height - self.genesis_height
        } else {
            0
        };
        let halvings = blocks / self.config.halving_interval;
        let mut r = self.config.initial_reward;
        let mut i: u64 = 0;
        while i < halvings && r > 0
            invariant
                i <= halvings,
                halved(self.config.initial_reward as nat, halvings as nat) == halved(r as nat, (halvings - i) as nat),
            decreases halvings - i,
        {
            r = r / 2;
            i += 1;
        }
        if i < halvings {
            proof {
                lemma_halved_zero((halvings - i) as nat);
            }
        }
        r
    }

    /// Adds a validator in order of operator id: after every validator whose
    /// id does not sort after its own, so that validators added this way are
    /// kept in ascending order of id.
    pub fn add_validator(&mut self, validator: ValidatorStake)
        requires
            old(self).wf(),
            validator.wf(),
        ensures
            final(self).wf(),
            final(self).config == old(self).config,
            final(self).treasury_balance == old(self).treasury_balance,
            exists|p: int|
                0 <= p <= old(self).validators@.len()
                && (forall|i: int| 0 <= i < p ==> !text_lt(operator_key(validator), #[trigger] operator_key(old(self).validators@[i])))
                && (p < old(self).validators@.len() ==> text_lt(operator_key(validator), operator_key(old(self).validators@[p])))
                && final(self).validators@ == old(self).validators@.insert(p, validator),
    {
        let mut p: usize = 0;
        while p < self.validators.len()
            && !bytes_lt(validator.operator.as_str().as_bytes(), self.validators[p].operator.as_str().as_bytes())
            invariant
                0 <= p <= self.validators@.len(),
                self.validators@ == old(self).validators@,
                forall|i: int| 0 <= i < p ==> !text_lt(operator_key(validator), #[trigger] operator_key(old(self).validators@[i])),
            decreases self.validators@.len() - p,
        {
            p += 1;
        }
        let ghost v = validator;
        self.validators.insert(p, validator);
        proof {
            assert forall|i: int| 0 <= i < self.validators@.len() implies #[trigger] self.validators@[i].wf() by {
                if i < p {
                    assert(self.validators@[i] == old(self).validators@[i]);
                    assert(old(self).validators@[i].wf());
                } else if i > p {
                    assert(self.validators@[i] == old(self).validators@[i - 1]);
                    assert(old(self).validators@[i - 1].wf());
                }
            }
        }
    }

    /// Splits `reward` of validator `v` between operator and delegators;
    /// returns the operator's part and the delegators' pool.
    pub fn apply_commission(&self, v: &ValidatorStake, reward: u128) -> (r: (u128, u128))
        requires
            v.commission_rate <= COIN,
            reward * (v.self_stake + v.delegated_stake) <= u128::MAX,
        ensures
            r.0 == commission_split(*v, reward).0,
            r.1 == commission_split(*v, reward).1,
            r.0 + r.1 == reward,
    {
        let stake = v.total_stake();
        let op_base: u128 = if stake == 0 {
            reward
        } else {
            proof {
                assert(reward * v.self_stake <= reward * stake) by (nonlinear_arith)
                    requires v.self_stake <= stake;
                assert(reward * v.self_stake / (stake as int) <= reward) by (nonlinear_arith)
                    requires v.self_stake <= stake, stake > 0;
            }
            reward * (v.self_stake as u128) / stake
        };
        let del_base = reward - op_base;
        let commission = mul_ratio(del_base, v.commission_rate);
        (op_base + commission, del_base - commission)
    }

    /// Shares `pool` among the delegators of `v` by stake, rounding down;
    /// the dust left over is returned with the shares.
    fn distribute_to_delegators(&self, v: &ValidatorStake, pool: u128) -> (r: (Vec<(String, u128)>, u128))
        requires
            v.wf(),
            pool * v.delegated_stake <= u128::MAX,
        ensures
            payout_sum(r.0@) + r.1 == pool,
            r.0@.len() == v.delegators@.len(),
            forall|i: int| 0 <= i < r.0@.len() ==> #[trigger] r.0@[i].0@ == v.delegators@[i].0@,
            r.1 <= pool,
            forall|i: int| 0 <= i < r.0@.len() ==> #[trigger] r.0@[i].1 == if v.delegated_stake > 0 {
                pool * v.delegators@[i].1 / (v.delegated_stake as int)
            } else {
                0
            },
    {
        let mut out: Vec<(String, u128)> = Vec::new();
        let mut given: u128 = 0;
        let mut i: usize = 0;
        let d = v.delegated_stake as u128;
        while i < v.delegators.len()
            invariant
                0 <= i <= v.delegators@.len(),
                d == v.delegated_stake,
                v.wf(),
                pool * d <= u128::MAX,
                out@.len() == i,
                payout_sum(out@) == given,
                given * d <= pool * delegation_sum(v.delegators@.subrange(0, i as int)),
                delegation_sum(v.delegators@.subrange(0, i as int)) <= d,
                forall|j: int| 0 <= j < i ==> (#[trigger] out@[j]).0@ == v.delegators@[j].0@,
                forall|j: int| 0 <= j < i ==> #[trigger] out@[j].1 == if d > 0 { pool * v.delegators@[j].1 / (d as int) } else { 0 },
                d == 0 ==> given == 0,
            decreases v.delegators@.len() - i,
        {
            proof {
                assert(v.delegators@.subrange(0, i + 1).drop_last() =~= v.delegators@.subrange(0, i as int));
                lemma_delegation_prefix(v.delegators@, i as int + 1);
            }
            let s = v.delegators[i].1 as u128;
            let ghost prefix = delegation_sum(v.delegators@.subrange(0, i as int));
            assert(v.delegators@.subrange(0, i + 1).last() == v.delegators@[i as int]);
            assert(delegation_sum(v.delegators@.subrange(0, i + 1)) == prefix + s);
            proof {
                lemma_delegation_nonneg(v.delegators@.subrange(0, i as int));
            }
            assert(s <= d);
            let share: u128 = if d == 0 { 0 } else {
            proof {
                assert(pool * s <= pool * d) by (nonlinear_arith)
                    requires s <= d;
                assert((pool * s / (d as int)) * d <= pool * s) by (nonlinear_arith)
                    requires d > 0;
                assert((given + pool * s / (d as int)) * d <= pool * (prefix + s)) by (nonlinear_arith)
                    requires given * d <= pool * prefix, (pool * s / (d as int)) * d <= pool * s;
                assert(given + pool * s / (d as int) <= pool) by (nonlinear_arith)
                    requires (given + pool * s / (d as int)) * d <= pool * (prefix + s), prefix + s <= d, d > 0;
            }
            pool * s / d
            };
            let ghost prev = out@;
            out.push((v.delegators[i].0.clone(), share));
            assert(out@.drop_last() =~= prev);
            assert forall|j: int| 0 <= j < i + 1 implies #[trigger] out@[j].0@ == v.delegators@[j].0@ by {
                if j < i {
                    assert(out@[j] == prev[j]);
                    assert(prev[j].0@ == v.delegators@[j].0@);
                }
            }
            given = given + share;
            i += 1;
        }
        proof {
            assert(v.delegators@.subrange(0, i as int) =~= v.delegators@);
            if d > 0 {
                assert(given <= pool) by (nonlinear_arith)
                    requires given * d <= pool * d, d > 0;
            }
        }
        (out, pool - given)
    }

    /// Total stake of all validators.
    pub fn total_network_stake(&self) -> (r: u128)
        requires
            network_stake(self.validators@) <= u128::MAX,
        ensures
            r == network_stake(self.validators@),
    {
        let mut total: u128 = 0;
        let mut i: usize = 0;
        while i < self.validators.len()
            invariant
                0 <= i <= self.validators@.len(),
                total == network_stake(self.validators@.subrange(0, i as int)),
                network_stake(self.validators@) <= u128::MAX,
            decreases self.validators@.len() - i,
        {
            assert(self.validators@.subrange(0, i + 1).drop_last() =~= self.validators@.subrange(0, i as int));
            assert(self.validators@.subrange(0, i + 1).last() == self.validators@[i as int]);
            proof {
                lemma_network_prefix(self.validators@, i + 1);
            }
            total = total + self.validators[i].total_stake();
            i += 1;
        }
        assert(self.validators@.subrange(0, i as int) =~= self.validators@);
        total
    }

    /// Splits `total_reward` and credits the treasury: validators share the
    /// validator part by stake, each paying its operator and delegators;
    /// active sequencers share the sequencer part equally; the treasury
    /// takes the rest, including what rounding left. Everything handed out
    /// adds up to `total_reward` exactly.
    pub fn distribute_reward(&mut self, total_reward: u128, active_sequencers: &Vec<String>) -> (r: BlockRewardDistribution)
        requires
            old(self).wf(),
            total_reward * network_stake(old(self).validators@) <= u128::MAX,
            network_stake(old(self).validators@) <= u128::MAX,
            old(self).config.validator_share + old(self).config.sequencer_share <= COIN,
            old(self).treasury_balance + total_reward <= u128::MAX,
        ensures
            final(self).wf(),
            final(self).validators == old(self).validators,
            final(self).config == old(self).config,
            r.total_reward == total_reward,
            distributed(r) == total_reward,
            final(self).treasury_balance == old(self).treasury_balance + r.treasury_amount,
            reward_split(old(self).validators@, old(self).config, total_reward, active_sequencers@.len(), r),
    {
        proof {
            assert(total_reward * self.config.validator_share / (COIN as int) + total_reward * self.config.sequencer_share / (COIN as int) <= total_reward) by (nonlinear_arith)
                requires self.config.validator_share + self.config.sequencer_share <= COIN;
        }
        let validator_pool = mul_ratio(total_reward, self.config.validator_share);
        let sequencer_pool = mul_ratio(total_reward, self.config.sequencer_share);
        let total_stake = self.total_network_stake();
        let mut validator_rewards: Vec<(String, ValidatorReward)> = Vec::new();
        let mut given: u128 = 0;
        let mut i: usize = 0;
        while i < self.validators.len()
            invariant
                self.wf(),
                0 <= i <= self.validators@.len(),
                total_stake == network_stake(self.validators@),
                self.validators@ == old(self).validators@,
                self.config == old(self).config,
                validator_pool == total_reward * old(self).config.validator_share / (COIN as int),
                validator_pool <= total_reward,
                total_reward * total_stake <= u128::MAX,
                total_stake == 0 ==> given == 0,
                validator_rewards@.len() == i,
                forall|j: int| 0 <= j < i ==> {
                    let v = old(self).validators@[j];
                    let part = validator_part(validator_pool as int, v, total_stake as int);
                    let split = commission_split(v, part as u128);
                    let vr = (#[trigger] validator_rewards@[j]).1;
                    &&& validator_rewards@[j].0@ == v.operator@
                    &&& validator_payout(vr) == part
                    &&& vr.operator_reward == split.0 + (split.1 - payout_sum(vr.delegator_rewards@))
                    &&& vr.delegator_rewards@.len() == v.delegators@.len()
                    &&& forall|k: int| 0 <= k < vr.delegator_rewards@.len() ==> #[trigger] vr.delegator_rewards@[k].1
                        == if v.delegated_stake > 0 { split.1 * v.delegators@[k].1 / (v.delegated_stake as int) } else { 0 }
                },
                validators_payout(validator_rewards@) == given,
                given * total_stake <= validator_pool * network_stake(self.validators@.subrange(0, i as int)),
                network_stake(self.validators@.subrange(0, i as int)) <= total_stake,
            decreases self.validators@.len() - i,
        {
            proof {
                assert(self.validators@.subrange(0, i + 1).drop_last() =~= self.validators@.subrange(0, i as int));
                lemma_network_prefix(self.validators@, i as int + 1);
            }
            let v = &self.validators[i];
            assert(v.wf());
            let stake = v.total_stake();
            let ghost prefix = network_stake(self.validators@.subrange(0, i as int));
            assert(self.validators@.subrange(0, i + 1).last() == self.validators@[i as int]);
            assert(network_stake(self.validators@.subrange(0, i + 1)) == prefix + stake);
            proof {
                lemma_network_nonneg(self.validators@.subrange(0, i as int));
                assert(stake <= total_stake);
                assert(validator_pool * stake <= total_reward * total_stake) by (nonlinear_arith)
                    requires stake <= total_stake, validator_pool <= total_reward;
            }
            let reward_v: u128 = if total_stake == 0 {
                0
            } else {
                proof {
                    assert(validator_pool * stake / (total_stake as int) <= validator_pool) by (nonlinear_arith)
                        requires stake <= total_stake, total_stake > 0;
                }
                validator_pool * stake / total_stake
            };
            proof {
                assert(reward_v * stake <= total_reward * total_stake) by (nonlinear_arith)
                    requires stake <= total_stake, reward_v <= total_reward;
            }
            proof {
                if total_stake > 0 {
                    assert((validator_pool * stake / (total_stake as int)) * total_stake <= validator_pool * stake) by (nonlinear_arith)
                        requires total_stake > 0;
                    assert((given + reward_v) * total_stake <= validator_pool * (prefix + stake)) by (nonlinear_arith)
                        requires given * total_stake <= validator_pool * prefix,
                            reward_v * total_stake <= validator_pool * stake;
                    assert(given + reward_v <= validator_pool) by (nonlinear_arith)
                        requires (given + reward_v) * total_stake <= validator_pool * (prefix + stake),
                            prefix + stake <= total_stake, total_stake > 0;
                }
            }
            let (operator_part, delegator_pool) = self.apply_commission(v, reward_v);
            proof {
                assert(delegator_pool * v.delegated_stake <= reward_v * stake) by (nonlinear_arith)
                    requires delegator_pool <= reward_v, v.delegated_stake <= stake;
            }
            let (delegator_rewards, dust) = self.distribute_to_delegators(v, delegator_pool);
            let reward = ValidatorReward { operator_reward: operator_part + dust, delegator_rewards };
            let ghost prev = validator_rewards@;
            validator_rewards.push((v.operator.clone(), reward));
            assert(validator_rewards@.drop_last() =~= prev);
            assert(reward_v == validator_part(validator_pool as int, *v, total_stake as int));
            assert(forall|j: int| 0 <= j < i ==> validator_rewards@[j] == prev[j]);
            given = given + reward_v;
            i += 1;
        }
        proof {
            assert(self.validators@.subrange(0, i as int) =~= self.validators@);
            if total_stake > 0 {
                assert(given <= validator_pool) by (nonlinear_arith)
                    requires given * total_stake <= validator_pool * total_stake, total_stake > 0;
            }
        }
        let n = active_sequencers.len();
        let each: u128 = if n == 0 { 0 } else { sequencer_pool / n as u128 };
        let mut sequencer_rewards: Vec<(String, u128)> = Vec::new();
        let mut seq_given: u128 = 0;
        let mut k: usize = 0;
        while k < n
            invariant
                n == active_sequencers@.len(),
                0 <= k <= n,
                n > 0 ==> each == (sequencer_pool as int) / (n as int),
                sequencer_rewards@.len() == k,
                payout_sum(sequencer_rewards@) == seq_given,
                seq_given == k * each,
                forall|j: int| 0 <= j < k ==> #[trigger] sequencer_rewards@[j].1 == each,
            decreases n - k,
        {
            proof {
                assert(k * each + each <= n * each) by (nonlinear_arith) requires k < n;
                assert((k + 1) * each == k * each + each) by (nonlinear_arith);
                assert(n * ((sequencer_pool as int) / (n as int)) <= sequencer_pool) by (nonlinear_arith) requires n > 0;
            }
            let ghost prev = sequencer_rewards@;
            sequencer_rewards.push((active_sequencers[k].clone(), each));
            assert(sequencer_rewards@.drop_last() =~= prev);
            seq_given = seq_given + each;
            k += 1;
        }
        proof {
            if n > 0 {
                assert(n * ((sequencer_pool as int) / (n as int)) <= sequencer_pool) by (nonlinear_arith) requires n > 0;
            }
        }
        let treasury_amount = total_reward - given - seq_given;
        self.treasury_balance = self.treasury_balance + treasury_amount;
        BlockRewardDistribution { total_reward, validator_rewards, sequencer_rewards, treasury_amount }
    }

    /// Mints the reward of `block_height` from the emission schedule (the
    /// halving reward, zero after the schedule and capped at the supply
    /// left) and distributes it; see `distribute_reward`.
    pub fn distribute_block_reward(
        &mut self,
        emission: &mut EmissionSchedule,
        block_height: u64,
        active_sequencers: &Vec<String>,
    ) -> (r: BlockRewardDistribution)
        requires
            old(self).wf(),
            old(emission).wf(),
            old(emission).total_minted + old(emission).max_supply <= u128::MAX,
            old(emission).max_supply * network_stake(old(self).validators@) <= u128::MAX,
            network_stake(old(self).validators@) <= u128::MAX,
            old(self).config.validator_share + old(self).config.sequencer_share <= COIN,
            old(self).treasury_balance + old(emission).max_supply <= u128::MAX,
        ensures
            final(self).wf(),
            *final(emission) == after_mint(*old(emission), block_height),
            r.total_reward == minted_at(*old(emission), block_height),
            distributed(r) == r.total_reward,
            final(self).treasury_balance == old(self).treasury_balance + r.treasury_amount,
            reward_split(old(self).validators@, old(self).config, r.total_reward, active_sequencers@.len(), r),
    {
        let max_supply = emission.max_supply;
        let total = emission.mint_block_reward(block_height);
        proof {
            let stake = network_stake(self.validators@);
            lemma_network_nonneg(self.validators@);
            assert(total <= max_supply);
            assert(total * stake <= max_supply * stake) by (nonlinear_arith)
                requires total <= max_supply, stake >= 0;
        }
        self.distribute_reward(total, active_sequencers)
    }

    /// The reward of the block at `block_height`.
    pub open spec fn calculate_block_reward_spec(&self, block_height: u64) -> nat {
        halved(
            self.config.initial_reward as nat,
            (if block_height > self.genesis_height { (block_height - self.genesis_height) as nat } else { 0nat })
                / (self.config.halving_interval as nat),
        )
    }

    /// Adds `amount` coins delegated by `delegator` to the first validator
    /// run by `validator_address`; fails when there is no such validator or
    /// its delegated stake would overflow.
    pub fn delegate(&mut self, validator_address: &str, delegator: String, amount: u64) -> (r: Result<(), StakingError>)
        requires
            old(self).wf(),
        ensures
            final(self).wf(),
            final(self).config == old(self).config,
            final(self).treasury_balance == old(self).treasury_balance,
            final(self).validators@.len() == old(self).validators@.len(),
            r is Err ==> final(self).validators@ == old(self).validators@,
            r == Err::<(), StakingError>(StakingError::ValidatorNotFound) <==> (forall|i: int|
                0 <= i < old(self).validators@.len() ==> #[trigger] old(self).validators@[i].operator@ != validator_address@),
            r is Ok || r == Err::<(), StakingError>(StakingError::StakeOverflow) ==> exists|i: int|
                0 <= i < old(self).validators@.len() && #[trigger] old(self).validators@[i].operator@ == validator_address@
                && (forall|j: int| 0 <= j < i ==> old(self).validators@[j].operator@ != validator_address@)
                && (r is Ok <==> old(self).validators@[i].delegated_stake + amount <= u64::MAX)
                && (r is Ok ==> final(self).validators@[i].delegated_stake == old(self).validators@[i].delegated_stake + amount
                    && final(self).validators@[i].self_stake == old(self).validators@[i].self_stake
                    && final(self).validators@[i].operator == old(self).validators@[i].operator
                    && delegated_by(final(self).validators@[i].delegators@, delegator@)
                        == delegated_by(old(self).validators@[i].delegators@, delegator@) + amount
                    && (forall|d: Seq<char>| d != delegator@ ==> delegated_by(final(self).validators@[i].delegators@, d)
                        == delegated_by(old(self).validators@[i].delegators@, d))
                    && (forall|j: int| 0 <= j < old(self).validators@.len() && j != i ==> final(self).validators@[j] == old(self).validators@[j])),
    {
        let key = validator_address.to_owned();
        let mut i: usize = 0;
        while i < self.validators.len()
            invariant
                0 <= i <= self.validators@.len(),
                self.validators@ == old(self).validators@,
                self.config == old(self).config,
                self.treasury_balance == old(self).treasury_balance,
                self.wf(),
                key@ == validator_address@,
                forall|j: int| 0 <= j < i ==> #[trigger] self.validators@[j].operator@ != validator_address@,
            decreases self.validators@.len() - i,
        {
            if self.validators[i].operator == key {
                if self.validators[i].delegated_stake > u64::MAX - amount {
                    return Err(StakingError::StakeOverflow);
                }
                assert(self.validators@[i as int].wf());
                let mut v = self.validators.remove(i);
                let ghost before = v.delegators@;
                let ghost d = delegator@;
                let mut j: usize = 0;
                while j < v.delegators.len() && v.delegators[j].0 != delegator
                    invariant
                        0 <= j <= v.delegators@.len(),
                        v.delegators@ == before,
                        d == delegator@,
                        forall|k: int| 0 <= k < j ==> #[trigger] before[k].0@ != d,
                    decreases v.delegators@.len() - j,
                {
                    j += 1;
                }
                if j < v.delegators.len() {
                    let (name, staked) = v.delegators.remove(j);
                    proof {
                        lemma_delegation_entry(before, j as int);
                    }
                    let ghost sum_before = delegation_sum(before);
                    v.delegators.insert(j, (name, staked + amount));
                    proof {
                        assert(v.delegators@ =~= before.update(j as int, (name, (staked + amount) as u64)));
                        lemma_delegation_update(before, j as int, (name, (staked + amount) as u64));
                        lemma_delegated_by_update(before, j as int, (staked + amount) as u64);
                    }
                } else {
                    v.delegators.push((delegator, amount));
                    assert(v.delegators@.drop_last() =~= before);
                    proof {
                        lemma_delegated_by_absent(before, d);
                    }
                }
                v.delegated_stake = v.delegated_stake + amount;
                self.validators.insert(i, v);
                proof {
                    assert forall|j: int| 0 <= j < self.validators@.len() implies #[trigger] self.validators@[j].wf() by {
                        if j != i {
                            assert(self.validators@[j] == old(self).validators@[j]);
                            assert(old(self).validators@[j].wf());
                        }
                    }
                }
                return Ok(());
            }
            i += 1;
        }
        Err(StakingError::ValidatorNotFound)
    }
}

/// Why a delegation failed.
#[derive(Debug, Clone, Copy, PartialEq, Eq, Structural)]
pub enum StakingError {
    ValidatorNotFound,
    StakeOverflow,
}

impl StakingError {
    /// A human-readable description of the error.
    pub fn message(&self) -> (r: String)
        ensures
            r@ == (match *self {
                StakingError::ValidatorNotFound => "Validator not found"@,
                StakingError::StakeOverflow => "Delegated stake overflow"@,
            }),
    {
        match self {
            StakingError::ValidatorNotFound => "Validator not found".to_string(),
            StakingError::StakeOverflow => "Delegated stake overflow".to_string(),
        }
    }
}

} // verus!
