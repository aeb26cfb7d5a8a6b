//! Initialization: every connection gets a freshly drawn weight.

use crate::network::{spec_wired, NeuralNetwork};
use crate::neuron::{Neuron, NeuronModel};
use vstd::prelude::*;

verus! {

/// Every element of `values` is an answer that `source` may give.
pub open spec fn spec_drawn<D: Fn() -> u32>(source: &D, values: Seq<u32>) -> bool {
    forall|k: int| 0 <= k < values.len() ==> source.ensures((), #[trigger] values[k])
}

/// The layer `after` is `before` with the weights of each neuron replaced by `n` draws of
/// `source`; activations and biases are those of `before`.
pub open spec fn spec_wired_layer<D: Fn() -> u32>(
    source: &D,
    before: Seq<NeuronModel>,
    after: Seq<NeuronModel>,
    n: nat,
) -> bool {
    &&& after.len() == before.len()
    &&& forall|i: int|
        0 <= i < before.len() ==> {
            &&& (#[trigger] after[i]).inner == before[i].inner
            &&& after[i].bias == before[i].bias
            &&& after[i].weights.len() == n
            &&& spec_drawn(source, after[i].weights)
        }
}

/// The network `after` is `before` with fresh weights: every neuron of every layer but the last
/// has one draw of `source` per neuron of the next layer, and the neurons of the last layer
/// have no weights.
pub open spec fn spec_initialized<D: Fn() -> u32>(
    source: &D,
    before: Seq<Seq<NeuronModel>>,
    after: Seq<Seq<NeuronModel>>,
) -> bool {
    &&& after.len() == before.len()
    &&& forall|l: int|
        0 <= l < before.len() ==> spec_wired_layer(
            source,
            before[l],
            #[trigger] after[l],
            if l == before.len() - 1 {
                0
            } else {
                before[l + 1].len()
            },
        )
}

/// A vector of `len` weights, each drawn from `source`.
pub fn random_weights<D: Fn() -> u32>(len: usize, source: &D) -> (r: Vec<u32>)
    requires
        source.requires(()),
    ensures
        r.len() == len,
        spec_drawn(source, r@),
{
    let mut r: Vec<u32> = Vec::new();
    let mut k: usize = 0;
    while k < len
        invariant
            source.requires(()),
            k <= len,
            r.len() == k,
            spec_drawn(source, r@),
        decreases len - k,
    {
        r.push(source());
        k += 1;
    }
    r
}

/// Gives each neuron of the layer `n` fresh weights.
fn wire_layer<D: Fn() -> u32>(layer: &mut Vec<Neuron>, n: usize, source: &D)
    requires
        source.requires(()),
    ensures
        spec_wired_layer(source, old(layer).deep_view(), final(layer).deep_view(), n as nat),
{
    let size: usize = layer.len();
    let mut i: usize = 0;
    while i < size
        invariant
            source.requires(()),
            i <= size,
            size == layer.len(),
            size == old(layer).len(),
            forall|k: int| i <= k < size ==> layer[k]@ == old(layer)[k]@,
            forall|k: int|
                0 <= k < i ==> {
                    &&& (#[trigger] layer[k]).inner == old(layer)[k].inner
                    &&& layer[k].bias == old(layer)[k].bias
                    &&& layer[k].weights.len() == n
                    &&& spec_drawn(source, layer[k].weights@)
                },
        decreases size - i,
    {
        layer[i].weights = random_weights(n, source);
        i += 1;
    }
}

/// A copy of the network with fresh weights. Every neuron of every layer but the last gets one
/// weight per neuron of the next layer, each drawn from `source`; the neurons of the output
/// layer get none. Whatever weights the network had are replaced; activations and biases stay.
pub fn initialize_weights<D: Fn() -> u32>(network: &NeuralNetwork, source: &D) -> (r:
    NeuralNetwork)
    requires
        source.requires(()),
    ensures
        spec_initialized(source, network@, r@),
        spec_wired(r@),
{
    let mut net = network.clone();
    let count: usize = net.hidden.len();
    let ghost start = net@;
    let first: usize = if count == 0 {
        net.output.len()
    } else {
        net.hidden[0].len()
    };
    wire_layer(&mut net.input, first, source);
    let mut h: usize = 0;
    while h < count
        invariant
            source.requires(()),
            h <= count,
            count == net.hidden.len(),
            start.len() == count + 2,
            net@.len() == start.len(),
            forall|k: int| h < k <= count + 1 ==> net@[k] == start[k],
            forall|k: int|
                0 <= k <= h ==> spec_wired_layer(
                    source,
                    start[k],
                    #[trigger] net@[k],
                    start[k + 1].len(),
                ),
        decreases count - h,
    {
        let ghost before = net@;
        let next: usize = if h + 1 == count {
            net.output.len()
        } else {
            net.hidden[h + 1].len()
        };
        assert(next == before[h + 2].len());
        wire_layer(&mut net.hidden[h], next, source);
        h += 1;
        proof {
            let now = net@;
            assert forall|k: int| 0 <= k < now.len() && k != h implies now[k] == before[k] by {}
        }
    }
    let ghost before = net@;
    wire_layer(&mut net.output, 0, source);
    proof {
        let now = net@;
        assert forall|k: int| 0 <= k < now.len() && k != count + 1 implies now[k] == before[k] by {}
        assert(spec_initialized(source, network@, now));
        lemma_initialized_is_wired(source, network@, now);
    }
    net
}

/// The shape invariant holds of every initialized network: each neuron of each layer but the
/// last has one weight per neuron of the next layer.
pub proof fn lemma_initialized_is_wired<D: Fn() -> u32>(
    source: &D,
    before: Seq<Seq<NeuronModel>>,
    after: Seq<Seq<NeuronModel>>,
)
    requires
        spec_initialized(source, before, after),
    ensures
        spec_wired(after),
{
    assert forall|l: int, i: int| 0 <= l < after.len() - 1 && 0 <= i < after[l].len() implies (
    #[trigger] after[l][i]).weights.len() == after[l + 1].len() by {
        assert(spec_wired_layer(source, before[l], after[l], before[l + 1].len()));
        assert(spec_wired_layer(
            source,
            before[l + 1],
            after[l + 1],
            if l + 1 == before.len() - 1 {
                0
            } else {
                before[l + 2].len()
            },
        ));
    }
}

} // verus!
