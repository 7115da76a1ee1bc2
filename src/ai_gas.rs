use vstd::prelude::*;

verus! {

/// Gas prices of on-chain AI operations.
pub struct AIGasPricing;

/// Base gas of a neural-network inference.
pub const NEURAL_NETWORK_BASE: u64 = 100_000;

/// Gas per network layer.
pub const NEURAL_NETWORK_PER_LAYER: u64 = 50_000;

/// Gas per neuron.
pub const NEURAL_NETWORK_PER_NEURON: u64 = 1_000;

/// Gas per kilobyte of stored model.
pub const MODEL_STORAGE_PER_KB: u64 = 5_000;

/// Total neurons over the layers.
pub open spec fn neuron_total(layers: Seq<usize>) -> int
    decreases layers.len(),
{
    if layers.len() == 0 {
        0
    } else {
        neuron_total(layers.drop_last()) + layers.last()
    }
}

/// Gas of an inference over a network with the given layer sizes.
pub open spec fn nn_gas(layers: Seq<usize>) -> int {
    NEURAL_NETWORK_BASE + NEURAL_NETWORK_PER_LAYER * layers.len() + NEURAL_NETWORK_PER_NEURON * neuron_total(layers)
}

proof fn lemma_neuron_prefix(s: Seq<usize>, i: int)
    requires
        0 <= i <= s.len(),
    ensures
        0 <= neuron_total(s.subrange(0, i)) <= neuron_total(s),
    decreases s.len() - i,
{
    if i == s.len() {
        assert(s.subrange(0, i) =~= s);
        lemma_neuron_nonneg(s);
    } else {
        lemma_neuron_prefix(s, i + 1);
        assert(s.subrange(0, i + 1).drop_last() =~= s.subrange(0, i));
        lemma_neuron_nonneg(s.subrange(0, i));
    }
}

proof fn lemma_neuron_nonneg(s: Seq<usize>)
    ensures
        neuron_total(s) >= 0,
    decreases s.len(),
{
    if s.len() > 0 {
        lemma_neuron_nonneg(s.drop_last());
    }
}

impl AIGasPricing {
    /// Base gas, plus gas per layer and per neuron.
    pub fn calculate_nn_gas(layers: &[usize]) -> (r: u64)
        requires
            nn_gas(layers@) <= u64::MAX,
        ensures
            r == nn_gas(layers@),
    {
        proof {
            lemma_neuron_nonneg(layers@);
        }
        let mut gas: u64 = NEURAL_NETWORK_BASE + NEURAL_NETWORK_PER_LAYER * layers.len() as u64;
        let mut i: usize = 0;
        while i < layers.len()
            invariant
                0 <= i <= layers@.len(),
                nn_gas(layers@) <= u64::MAX,
                neuron_total(layers@) >= 0,
                gas == NEURAL_NETWORK_BASE + NEURAL_NETWORK_PER_LAYER * layers@.len()
                    + NEURAL_NETWORK_PER_NEURON * neuron_total(layers@.subrange(0, i as int)),
            decreases layers@.len() - i,
        {
            proof {
                assert(layers@.subrange(0, i + 1).drop_last() =~= layers@.subrange(0, i as int));
                lemma_neuron_prefix(layers@, i + 1);
            }
            gas = gas + NEURAL_NETWORK_PER_NEURON * layers[i] as u64;
            i += 1;
        }
        assert(layers@.subrange(0, i as int) =~= layers@);
        gas
    }

    /// Gas of storing a model of `model_size_kb` kilobytes.
    pub fn calculate_storage_gas(model_size_kb: u64) -> (r: u64)
        requires
            MODEL_STORAGE_PER_KB * model_size_kb <= u64::MAX,
        ensures
            r == MODEL_STORAGE_PER_KB * model_size_kb,
    {
        MODEL_STORAGE_PER_KB * model_size_kb
    }
}

} // verus!
