use crate::transaction::COIN;
use vstd::prelude::*;

verus! {

/// Blocks per year at one block per second.
pub const BLOCKS_PER_YEAR: u128 = 31_536_000;

/// Scale of inflation rates: a rate of one percent is this many units.
pub const RATE_SCALE: u128 = 1_000_000;

/// The block-reward curve and supply accounting. All amounts are base
/// units (10^-18 coin).
#[derive(Debug, Clone)]
pub struct EmissionSchedule {
    pub max_supply: u128,
    pub genesis_allocation: u128,
    pub initial_block_reward: u128,
    pub halving_interval: u64,
    pub total_halvings: u32,
    pub circulating_supply: u128,
    pub total_minted: u128,
    pub total_burned: u128,
    pub genesis_height: u64,
}

/// A snapshot of the schedule's metrics at one height.
#[derive(Debug, Clone)]
pub struct EmissionStats {
    pub max_supply: u128,
    pub circulating_supply: u128,
    pub total_minted: u128,
    pub total_burned: u128,
    pub remaining_supply: u128,
    pub current_epoch: u32,
    pub current_block_reward: u128,
    pub inflation_rate: u128,
    pub emission_complete: bool,
}

/// The pre-mined part of the supply.
#[derive(Debug, Clone)]
pub struct GenesisAllocation {
    pub node_operators: u128,
    pub reserved: u128,
}

/// `x` halved `n` times, each time rounded down; that is, `x / 2^n` rounded down.
pub open spec fn halved(x: nat, n: nat) -> nat
    decreases n,
{
    if n == 0 {
        x
    } else {
        halved(x / 2, (n - 1) as nat)
    }
}

/// Blocks since genesis at height `h`, zero before genesis.
pub open spec fn blocks_since(s: EmissionSchedule, h: u64) -> nat {
    if h > s.genesis_height {
        (h - s.genesis_height) as nat
    } else {
        0
    }
}

/// Number of complete halving intervals since genesis at height `h`.
pub open spec fn raw_epoch(s: EmissionSchedule, h: u64) -> nat {
    blocks_since(s, h) / (s.halving_interval as nat)
}

/// The epoch at height `h`, capped at the number of halvings.
pub open spec fn epoch_of(s: EmissionSchedule, h: u64) -> nat {
    if raw_epoch(s, h) < s.total_halvings {
        raw_epoch(s, h)
    } else {
        s.total_halvings as nat
    }
}

/// Reward per block during epoch `e`: zero once the schedule is over.
pub open spec fn epoch_reward(s: EmissionSchedule, e: nat) -> nat {
    if e < s.total_halvings {
        halved(s.initial_block_reward as nat, e)
    } else {
        0
    }
}

/// Reward of the block at height `h`.
pub open spec fn block_reward(s: EmissionSchedule, h: u64) -> nat {
    epoch_reward(s, raw_epoch(s, h))
}

/// Everything emitted during epoch `e`.
pub open spec fn epoch_emission(s: EmissionSchedule, e: nat) -> int {
    epoch_reward(s, e) * s.halving_interval
}

/// Everything emitted during the first `n` epochs.
pub open spec fn emitted_in_epochs(s: EmissionSchedule, n: nat) -> int
    decreases n,
{
    if n == 0 {
        0
    } else {
        emitted_in_epochs(s, (n - 1) as nat) + epoch_emission(s, (n - 1) as nat)
    }
}

/// Everything emitted by the schedule up to height `h`.
pub open spec fn minted_at_height(s: EmissionSchedule, h: u64) -> int {
    let complete = raw_epoch(s, h);
    let capped = if complete < s.total_halvings { complete } else { s.total_halvings as nat };
    let remaining = blocks_since(s, h) % (s.halving_interval as nat);
    emitted_in_epochs(s, capped) + if complete < s.total_halvings {
        block_reward(s, h) * remaining
    } else {
        0
    }
}

/// What minting at height `h` yields: the block reward, capped at the
/// supply left under the maximum.
pub open spec fn minted_at(s: EmissionSchedule, h: u64) -> nat {
    if block_reward(s, h) <= s.max_supply - s.circulating_supply {
        block_reward(s, h)
    } else {
        (s.max_supply - s.circulating_supply) as nat
    }
}

/// The schedule after minting at height `h`.
pub open spec fn after_mint(s: EmissionSchedule, h: u64) -> EmissionSchedule {
    EmissionSchedule {
        circulating_supply: (s.circulating_supply + minted_at(s, h)) as u128,
        total_minted: (s.total_minted + minted_at(s, h)) as u128,
        ..s
    }
}

/// The schedule after burning `amount`.
pub open spec fn after_burn(s: EmissionSchedule, amount: u128) -> EmissionSchedule {
    EmissionSchedule {
        circulating_supply: if amount <= s.circulating_supply { (s.circulating_supply - amount) as u128 } else { 0 },
        total_burned: (s.total_burned + amount) as u128,
        ..s
    }
}

/// One supply operation: minting at a height, or burning an amount.
pub enum SupplyOp {
    Mint(u64),
    Burn(u128),
}

/// The schedule after a run of supply operations.
pub open spec fn run_ops(s: EmissionSchedule, ops: Seq<SupplyOp>) -> EmissionSchedule
    decreases ops.len(),
{
    if ops.len() == 0 {
        s
    } else {
        let t = run_ops(s, ops.drop_last());
        match ops.last() {
            SupplyOp::Mint(h) => after_mint(t, h),
            SupplyOp::Burn(x) => after_burn(t, x),
        }
    }
}

/// Sum of the results of the mints in a run.
pub open spec fn minted_in_run(s: EmissionSchedule, ops: Seq<SupplyOp>) -> int
    decreases ops.len(),
{
    if ops.len() == 0 {
        0
    } else {
        minted_in_run(s, ops.drop_last()) + match ops.last() {
            SupplyOp::Mint(h) => minted_at(run_ops(s, ops.drop_last()), h) as int,
            SupplyOp::Burn(_) => 0,
        }
    }
}

/// Sum of the amounts burned in a run.
pub open spec fn burned_in_run(ops: Seq<SupplyOp>) -> int
    decreases ops.len(),
{
    if ops.len() == 0 {
        0
    } else {
        burned_in_run(ops.drop_last()) + match ops.last() {
            SupplyOp::Mint(_) => 0,
            SupplyOp::Burn(x) => x as int,
        }
    }
}

/// Over any run of mints and burns, the circulating supply
/// never exceeds the maximum, the minted total grows by exactly the sum of
/// what the mints returned, and the burned total by exactly the sum of what
/// was burned. The run must keep the totals within `u128`: each mint adds
/// at most `max_supply`.
pub proof fn lemma_supply_run(s: EmissionSchedule, ops: Seq<SupplyOp>)
    requires
        s.wf(),
        s.total_minted + ops.len() * s.max_supply <= u128::MAX,
        s.total_burned + burned_in_run(ops) <= u128::MAX,
    ensures
        run_ops(s, ops).wf(),
        run_ops(s, ops).total_minted == s.total_minted + minted_in_run(s, ops),
        run_ops(s, ops).total_burned == s.total_burned + burned_in_run(ops),
        run_ops(s, ops).max_supply == s.max_supply,
        0 <= minted_in_run(s, ops) <= ops.len() * s.max_supply,
    decreases ops.len(),
{
    if ops.len() > 0 {
        let prefix = ops.drop_last();
        lemma_burned_nonneg(prefix);
        assert(prefix.len() * s.max_supply <= ops.len() * s.max_supply) by (nonlinear_arith)
            requires prefix.len() + 1 == ops.len();
        lemma_supply_run(s, prefix);
        let t = run_ops(s, prefix);
        assert(ops.len() * s.max_supply == prefix.len() * s.max_supply + s.max_supply) by (nonlinear_arith)
            requires prefix.len() + 1 == ops.len();
    }
}

proof fn lemma_burned_nonneg(ops: Seq<SupplyOp>)
    ensures
        burned_in_run(ops) >= 0,
    decreases ops.len(),
{
    if ops.len() > 0 {
        lemma_burned_nonneg(ops.drop_last());
    }
}

pub proof fn lemma_halved_zero(n: nat)
    ensures
        halved(0, n) == 0,
    decreases n,
{
    if n > 0 {
        lemma_halved_zero((n - 1) as nat);
    }
}

pub proof fn lemma_halved_le(x: nat, n: nat)
    ensures
        halved(x, n) <= x,
    decreases n,
{
    if n > 0 {
        lemma_halved_le(x / 2, (n - 1) as nat);
    }
}

proof fn lemma_emitted_bound(s: EmissionSchedule, n: nat)
    ensures
        emitted_in_epochs(s, n) <= n * (s.initial_block_reward * s.halving_interval),
    decreases n,
{
    if n > 0 {
        lemma_emitted_bound(s, (n - 1) as nat);
        let e = (n - 1) as nat;
        if e < s.total_halvings {
            lemma_halved_le(s.initial_block_reward as nat, e);
        }
        assert(epoch_reward(s, e) <= s.initial_block_reward);
        assert(epoch_reward(s, e) * s.halving_interval <= s.initial_block_reward
            * s.halving_interval) by (nonlinear_arith)
            requires
                epoch_reward(s, e) <= s.initial_block_reward,
        ;
        assert(n * (s.initial_block_reward * s.halving_interval) == (n - 1) * (
        s.initial_block_reward * s.halving_interval) + s.initial_block_reward
            * s.halving_interval) by (nonlinear_arith);
    }
}

/// `x` halved `n` times, rounding down each time.
fn halve_times(x: u128, n: u64) -> (r: u128)
    ensures
        r == halved(x as nat, n as nat),
{
    let mut r = x;
    let mut i: u64 = 0;
    while i < n && r > 0
        invariant
            i <= n,
            halved(x as nat, n as nat) == halved(r as nat, (n - i) as nat),
        decreases n - i,
    {
        r = r / 2;
        i += 1;
    }
    if i < n {
        proof {
            lemma_halved_zero((n - i) as nat);
        }
    }
    r
}

impl EmissionSchedule {
    /// The schedule's own consistency: a positive halving interval and a
    /// circulating supply within the cap.
    pub open spec fn wf(&self) -> bool {
        &&& self.halving_interval > 0
        &&& self.circulating_supply <= self.max_supply
    }

    /// Whether the emission totals fit the machine's integers: one epoch's
    /// emission times one more than the number of halvings.
    pub open spec fn fits(&self) -> bool {
        (self.total_halvings + 1) * (self.initial_block_reward * self.halving_interval)
            <= u128::MAX
    }

    /// The default schedule: ten billion coins at most, 2.1 million at
    /// genesis, 79.35 per block halving every 63 072 000 blocks, ten times.
    pub fn new(genesis_height: u64) -> (r: Self)
        ensures
            r.wf(),
            r.fits(),
            r.genesis_height == genesis_height,
            r.max_supply == 10_000_000_000 * COIN,
            r.genesis_allocation == 2_100_000 * COIN,
            r.initial_block_reward == 79_350_000_000_000_000_000,
            r.halving_interval == 63_072_000,
            r.total_halvings == 10,
            r.circulating_supply == 2_100_000 * COIN,
            r.total_minted == 0,
            r.total_burned == 0,
    {
        let r = EmissionSchedule {
            max_supply: 10_000_000_000 * COIN,
            genesis_allocation: 2_100_000 * COIN,
            initial_block_reward: 79_350_000_000_000_000_000,
            halving_interval: 63_072_000,
            total_halvings: 10,
            circulating_supply: 2_100_000 * COIN,
            total_minted: 0,
            total_burned: 0,
            genesis_height,
        };
        assert(r.fits()) by (nonlinear_arith)
            requires
                r.total_halvings == 10,
                r.initial_block_reward == 79_350_000_000_000_000_000u128,
                r.halving_interval == 63_072_000,
        ;
        r
    }

    fn blocks_since_genesis(&self, block_height: u64) -> (r: u64)
        ensures
            r == blocks_since(*self, block_height),
    {
        if block_height > self.genesis_height {
            block_height - self.genesis_height
        } else {
            0
        }
    }

    /// Reward of the block at `block_height`: the initial reward halved once
    /// per complete interval since genesis, and zero from the end of the
    /// last interval of the schedule on.
    pub fn calculate_block_reward(&self, block_height: u64) -> (r: u128)
        requires
            self.wf(),
        ensures
            r == block_reward(*self, block_height),
    {
        let epoch = self.blocks_since_genesis(block_height) / self.halving_interval;
        if epoch >= self.total_halvings as u64 {
            return 0;
        }
        halve_times(self.initial_block_reward, epoch)
    }

    /// The epoch at `block_height`, capped at the number of halvings.
    pub fn current_epoch(&self, block_height: u64) -> (r: u32)
        requires
            self.wf(),
        ensures
            r == epoch_of(*self, block_height),
    {
        let epoch = self.blocks_since_genesis(block_height) / self.halving_interval;
        if epoch < self.total_halvings as u64 {
            epoch as u32
        } else {
            self.total_halvings
        }
    }

    /// Everything emitted during `epoch`: zero from the end of the schedule on.
    pub fn epoch_total_emission(&self, epoch: u32) -> (r: u128)
        requires
            self.fits(),
        ensures
            r == epoch_emission(*self, epoch as nat),
    {
        if epoch >= self.total_halvings {
            return 0;
        }
        let reward = halve_times(self.initial_block_reward, epoch as u64);
        proof {
            lemma_halved_le(self.initial_block_reward as nat, epoch as nat);
            assert(reward * self.halving_interval <= self.initial_block_reward
                * self.halving_interval) by (nonlinear_arith)
                requires
                    reward <= self.initial_block_reward,
            ;
            assert(self.initial_block_reward * self.halving_interval <= (self.total_halvings + 1)
                * (self.initial_block_reward * self.halving_interval)) by (nonlinear_arith);
        }
        reward * self.halving_interval as u128
    }

    /// Everything the schedule has emitted up to `block_height`.
    pub fn total_minted_at_height(&self, block_height: u64) -> (r: u128)
        requires
            self.wf(),
            self.fits(),
        ensures
            r == minted_at_height(*self, block_height),
    {
        let blocks = self.blocks_since_genesis(block_height);
        let complete = blocks / self.halving_interval;
        let remaining = blocks % self.halving_interval;
        let capped: u64 = if complete < self.total_halvings as u64 {
            complete
        } else {
            self.total_halvings as u64
        };
        let ghost unit = self.initial_block_reward * self.halving_interval;
        let mut total: u128 = 0;
        let mut e: u64 = 0;
        while e < capped
            invariant
                self.fits(),
                capped <= self.total_halvings,
                e <= capped,
                unit == self.initial_block_reward * self.halving_interval,
                total == emitted_in_epochs(*self, e as nat),
            decreases capped - e,
        {
            proof {
                lemma_emitted_bound(*self, (e + 1) as nat);
                assert((e + 1) * unit <= (self.total_halvings + 1) * unit) by (nonlinear_arith)
                    requires
                        e + 1 <= self.total_halvings + 1,
                        unit >= 0,
                ;
            }
            let add = self.epoch_total_emission(e as u32);
            total = total + add;
            e += 1;
        }
        if complete < self.total_halvings as u64 {
            let reward = self.calculate_block_reward(block_height);
            proof {
                lemma_emitted_bound(*self, capped as nat);
                lemma_halved_le(self.initial_block_reward as nat, complete as nat);
                assert(reward * remaining <= self.initial_block_reward * self.halving_interval)
                    by (nonlinear_arith)
                    requires
                        reward <= self.initial_block_reward,
                        remaining < self.halving_interval,
                ;
                assert(capped * unit + unit == (capped + 1) * unit) by (nonlinear_arith);
                assert((capped + 1) * unit <= (self.total_halvings + 1) * unit) by (nonlinear_arith)
                    requires
                        capped + 1 <= self.total_halvings + 1,
                        unit >= 0,
                ;
            }
            total = total + reward * remaining as u128;
        }
        total
    }

    /// Mints the reward of `block_height`, capped at the supply left under
    /// `max_supply`, and returns what was minted.
    pub fn mint_block_reward(&mut self, block_height: u64) -> (r: u128)
        requires
            old(self).wf(),
            old(self).total_minted + old(self).max_supply <= u128::MAX,
        ensures
            final(self).wf(),
            r == minted_at(*old(self), block_height),
            final(self).circulating_supply == old(self).circulating_supply + r,
            final(self).total_minted == old(self).total_minted + r,
            *final(self) == after_mint(*old(self), block_height),
    {
        let reward = self.calculate_block_reward(block_height);
        let headroom = self.max_supply - self.circulating_supply;
        let minted = if reward <= headroom {
            reward
        } else {
            headroom
        };
        self.circulating_supply = self.circulating_supply + minted;
        self.total_minted = self.total_minted + minted;
        minted
    }

    /// Burns `amount`: the circulating supply drops by it, but not below
    /// zero, and the burned total grows by all of it.
    pub fn burn(&mut self, amount: u128)
        requires
            old(self).wf(),
            old(self).total_burned + amount <= u128::MAX,
        ensures
            final(self).wf(),
            final(self).circulating_supply == if amount <= old(self).circulating_supply {
                (old(self).circulating_supply - amount) as u128
            } else {
                0
            },
            final(self).total_burned == old(self).total_burned + amount,
            *final(self) == after_burn(*old(self), amount),
    {
        if amount <= self.circulating_supply {
            self.circulating_supply = self.circulating_supply - amount;
        } else {
            self.circulating_supply = 0;
        }
        self.total_burned = self.total_burned + amount;
    }

    /// Supply left under the cap.
    pub fn remaining_supply(&self) -> (r: u128)
        requires
            self.wf(),
        ensures
            r == self.max_supply - self.circulating_supply,
    {
        self.max_supply - self.circulating_supply
    }

    /// Whether the circulating supply has reached the cap.
    pub fn is_emission_complete(&self) -> (r: bool)
        ensures
            r == (self.circulating_supply >= self.max_supply),
    {
        self.circulating_supply >= self.max_supply
    }

    /// Annual emission at the current reward as a percentage of the
    /// circulating supply, in units of 1/`RATE_SCALE` percent, rounded
    /// down; zero when nothing circulates.
    pub fn current_inflation_rate(&self, block_height: u64) -> (r: u128)
        requires
            self.wf(),
            self.initial_block_reward * BLOCKS_PER_YEAR * 100 * RATE_SCALE <= u128::MAX,
        ensures
            self.circulating_supply == 0 ==> r == 0,
            self.circulating_supply > 0 ==> r == block_reward(*self, block_height)
                * BLOCKS_PER_YEAR * 100 * RATE_SCALE / (self.circulating_supply as int),
    {
        if self.circulating_supply == 0 {
            return 0;
        }
        let reward = self.calculate_block_reward(block_height);
        proof {
            if raw_epoch(*self, block_height) < self.total_halvings {
                lemma_halved_le(self.initial_block_reward as nat, raw_epoch(*self, block_height));
            }
            assert(reward * BLOCKS_PER_YEAR * 100 * RATE_SCALE <= self.initial_block_reward
                * BLOCKS_PER_YEAR * 100 * RATE_SCALE) by (nonlinear_arith)
                requires
                    reward <= self.initial_block_reward,
            ;
        }
        reward * BLOCKS_PER_YEAR * 100 * RATE_SCALE / self.circulating_supply
    }

    /// The schedule's metrics at `block_height`.
    pub fn get_stats(&self, block_height: u64) -> (r: EmissionStats)
        requires
            self.wf(),
            self.initial_block_reward * BLOCKS_PER_YEAR * 100 * RATE_SCALE <= u128::MAX,
        ensures
            r.max_supply == self.max_supply,
            r.circulating_supply == self.circulating_supply,
            r.total_minted == self.total_minted,
            r.total_burned == self.total_burned,
            r.remaining_supply == self.max_supply - self.circulating_supply,
            r.current_epoch == epoch_of(*self, block_height),
            r.current_block_reward == block_reward(*self, block_height),
            self.circulating_supply > 0 ==> r.inflation_rate == block_reward(*self, block_height)
                * BLOCKS_PER_YEAR * 100 * RATE_SCALE / (self.circulating_supply as int),
            self.circulating_supply == 0 ==> r.inflation_rate == 0,
            r.emission_complete == (self.circulating_supply >= self.max_supply),
    {
        EmissionStats {
            max_supply: self.max_supply,
            circulating_supply: self.circulating_supply,
            total_minted: self.total_minted,
            total_burned: self.total_burned,
            remaining_supply: self.remaining_supply(),
            current_epoch: self.current_epoch(block_height),
            current_block_reward: self.calculate_block_reward(block_height),
            inflation_rate: self.current_inflation_rate(block_height),
            emission_complete: self.is_emission_complete(),
        }
    }
}

impl Default for EmissionSchedule {
    fn default() -> (r: Self)
        ensures
            r.wf(),
            r.fits(),
            r.genesis_height == 0,
            r.max_supply == 10_000_000_000 * COIN,
            r.initial_block_reward == 79_350_000_000_000_000_000,
            r.circulating_supply == 2_100_000 * COIN,
    {
        EmissionSchedule::new(0)
    }
}

impl GenesisAllocation {
    /// Two million coins to node operators and one hundred thousand reserved.
    pub fn new() -> (r: Self)
        ensures
            r.node_operators == 2_000_000 * COIN,
            r.reserved == 100_000 * COIN,
    {
        GenesisAllocation { node_operators: 2_000_000 * COIN, reserved: 100_000 * COIN }
    }

    /// The whole pre-mined supply.
    pub fn total(&self) -> (r: u128)
        requires
            self.node_operators + self.reserved <= u128::MAX,
        ensures
            r == self.node_operators + self.reserved,
    {
        self.node_operators + self.reserved
    }
}

impl Default for GenesisAllocation {
    fn default() -> (r: Self)
        ensures
            r.node_operators == 2_000_000 * COIN,
            r.reserved == 100_000 * COIN,
    {
        GenesisAllocation::new()
    }
}

} // verus!
