//! The forward pass: every activation computed from the layer before it.

use crate::arithmetic::{
    answers_all, computes, leaky_relu, sigmoid, spec_leaky_relu, spec_sigmoid, Op, ZERO,
};
use crate::network::{spec_feeds, spec_same_parameters, spec_wired, NeuralNetwork, ShapeError};
use crate::neuron::{Neuron, NeuronModel};
use vstd::prelude::*;

verus! {

/// What the first `n` neurons of `prev` send to neuron `j` of the next layer: starting from
/// zero, each in turn adds its activation times its weight number `j`.
pub open spec fn spec_weighted_sum(
    f: spec_fn(Op) -> u32,
    prev: Seq<NeuronModel>,
    j: int,
    n: nat,
) -> u32
    decreases n,
{
    if n == 0 {
        ZERO
    } else {
        f(
            Op::Add(
                spec_weighted_sum(f, prev, j, (n - 1) as nat),
                f(Op::Mul(prev[n - 1].inner, prev[n - 1].weights[j])),
            ),
        )
    }
}

/// The activation of neuron `j` of a layer that follows `prev`: the weighted sum plus the bias,
/// through the logistic function in the output layer and through the leaky rectifier elsewhere.
pub open spec fn spec_activation(
    f: spec_fn(Op) -> u32,
    prev: Seq<NeuronModel>,
    bias: u32,
    j: int,
    output: bool,
) -> u32 {
    let raw = f(Op::Add(spec_weighted_sum(f, prev, j, prev.len()), bias));
    if output {
        spec_sigmoid(f, raw)
    } else {
        spec_leaky_relu(f, raw)
    }
}

/// The layer with each activation replaced by the one in `values`.
pub open spec fn spec_with_activations(layer: Seq<NeuronModel>, values: Seq<u32>) -> Seq<
    NeuronModel,
> {
    Seq::new(layer.len(), |j: int| NeuronModel { inner: values[j], ..layer[j] })
}

/// The activations of a layer that follows `prev`.
pub open spec fn spec_layer_activations(
    f: spec_fn(Op) -> u32,
    prev: Seq<NeuronModel>,
    layer: Seq<NeuronModel>,
    output: bool,
) -> Seq<u32> {
    Seq::new(layer.len(), |j: int| spec_activation(f, prev, layer[j].bias, j, output))
}

/// Layer `l` of the network after a forward pass from the activations that the input layer
/// holds. The input layer stays; each later layer is computed from the one before it.
pub open spec fn spec_forward_layer(
    f: spec_fn(Op) -> u32,
    net: Seq<Seq<NeuronModel>>,
    l: nat,
) -> Seq<NeuronModel>
    decreases l,
{
    if l == 0 {
        net[0]
    } else {
        spec_with_activations(
            net[l as int],
            spec_layer_activations(
                f,
                spec_forward_layer(f, net, (l - 1) as nat),
                net[l as int],
                l == net.len() - 1,
            ),
        )
    }
}

/// The network after a forward pass from the activations that the input layer holds.
pub open spec fn spec_calculate_all_inners(
    f: spec_fn(Op) -> u32,
    net: Seq<Seq<NeuronModel>>,
) -> Seq<Seq<NeuronModel>> {
    Seq::new(net.len(), |l: int| spec_forward_layer(f, net, l as nat))
}

/// The network with `input` as the activations of its input layer.
pub open spec fn spec_with_input(net: Seq<Seq<NeuronModel>>, input: Seq<u32>) -> Seq<
    Seq<NeuronModel>,
> {
    net.update(0, spec_with_activations(net[0], input))
}

/// The network after a forward pass from `input`.
pub open spec fn spec_propagate(
    f: spec_fn(Op) -> u32,
    net: Seq<Seq<NeuronModel>>,
    input: Seq<u32>,
) -> Seq<Seq<NeuronModel>> {
    spec_calculate_all_inners(f, spec_with_input(net, input))
}

/// What the neurons of `prev` send to neuron `j` of the next layer.
fn weighted_sum<U: Fn(Op) -> u32>(prev: &Vec<Neuron>, j: usize, unit: &U) -> (r: u32)
    requires
        answers_all(unit),
        forall|i: int| 0 <= i < prev.len() ==> j < (#[trigger] prev[i]).weights.len(),
    ensures
        forall|f: spec_fn(Op) -> u32|
            computes(unit, f) ==> r == spec_weighted_sum(
                f,
                prev.deep_view(),
                j as int,
                prev.len() as nat,
            ),
{
    let mut sum: u32 = ZERO;
    let mut i: usize = 0;
    while i < prev.len()
        invariant
            answers_all(unit),
            i <= prev.len(),
            forall|k: int| 0 <= k < prev.len() ==> j < (#[trigger] prev[k]).weights.len(),
            forall|f: spec_fn(Op) -> u32|
                computes(unit, f) ==> sum == spec_weighted_sum(
                    f,
                    prev.deep_view(),
                    j as int,
                    i as nat,
                ),
        decreases prev.len() - i,
    {
        let product = unit(Op::Mul(prev[i].inner, prev[i].weights[j]));
        sum = unit(Op::Add(sum, product));
        i += 1;
    }
    sum
}

/// The weighted sum that reaches neuron `neuron_index` of layer `layer_index` from the layer
/// before it, without the bias. Where the network has no layer before that index, nothing
/// reaches the neuron and the sum is zero.
pub fn calculate_inner<U: Fn(Op) -> u32>(
    network: &NeuralNetwork,
    layer_index: usize,
    neuron_index: usize,
    unit: &U,
) -> (r: u32)
    requires
        answers_all(unit),
        layer_index >= 1,
        layer_index - 1 < network@.len() ==> forall|i: int|
            0 <= i < network@[layer_index - 1].len() ==> neuron_index < (
            #[trigger] network@[layer_index - 1][i]).weights.len(),
    ensures
        layer_index - 1 >= network@.len() ==> r == ZERO,
        layer_index - 1 < network@.len() ==> forall|f: spec_fn(Op) -> u32|
            computes(unit, f) ==> r == spec_weighted_sum(
                f,
                network@[layer_index - 1],
                neuron_index as int,
                network@[layer_index - 1].len(),
            ),
{
    match network.get_layer(layer_index - 1) {
        Some(prev) => {
            assert forall|i: int| 0 <= i < prev.len() implies neuron_index < (
            #[trigger] prev[i]).weights.len() by {
                assert(prev.deep_view()[i] == network@[layer_index - 1][i]);
            }
            weighted_sum(prev, neuron_index, unit)
        },
        None => ZERO,
    }
}

/// The activations of `layer`, which follows `prev`.
fn layer_activations<U: Fn(Op) -> u32>(
    prev: &Vec<Neuron>,
    layer: &Vec<Neuron>,
    output: bool,
    unit: &U,
) -> (r: Vec<u32>)
    requires
        answers_all(unit),
        spec_feeds(prev.deep_view(), layer.len() as nat),
    ensures
        r.len() == layer.len(),
        forall|f: spec_fn(Op) -> u32|
            computes(unit, f) ==> r@ == spec_layer_activations(
                f,
                prev.deep_view(),
                layer.deep_view(),
                output,
            ),
{
    let mut r: Vec<u32> = Vec::new();
    let mut j: usize = 0;
    assert forall|i: int| 0 <= i < prev.len() implies (#[trigger] prev[i]).weights.len()
        == layer.len() by {
        assert(prev.deep_view()[i].weights.len() == layer.len());
    }
    while j < layer.len()
        invariant
            answers_all(unit),
            j <= layer.len(),
            r.len() == j,
            forall|i: int| 0 <= i < prev.len() ==> (#[trigger] prev[i]).weights.len() == layer.len(),
            forall|f: spec_fn(Op) -> u32|
                computes(unit, f) ==> forall|k: int|
                    0 <= k < j ==> r[k] == #[trigger] spec_layer_activations(
                        f,
                        prev.deep_view(),
                        layer.deep_view(),
                        output,
                    )[k],
        decreases layer.len() - j,
    {
        let sum = weighted_sum(prev, j, unit);
        let raw = unit(Op::Add(sum, layer[j].bias));
        let value = if output {
            sigmoid(raw, unit)
        } else {
            leaky_relu(raw, unit)
        };
        r.push(value);
        j += 1;
    }
    assert forall|f: spec_fn(Op) -> u32| computes(unit, f) implies r@ == spec_layer_activations(
        f,
        prev.deep_view(),
        layer.deep_view(),
        output,
    ) by {
        assert(r@ =~= spec_layer_activations(f, prev.deep_view(), layer.deep_view(), output));
    }
    r
}

/// Writes `values` into the layer as its activations, one to one by position.
fn set_activations(layer: &mut Vec<Neuron>, values: &Vec<u32>)
    requires
        values.len() == old(layer).len(),
    ensures
        final(layer).deep_view() == spec_with_activations(old(layer).deep_view(), values@),
{
    let n: usize = layer.len();
    let mut j: usize = 0;
    while j < n
        invariant
            j <= n,
            n == layer.len(),
            n == values.len(),
            n == old(layer).len(),
            forall|k: int| j <= k < n ==> layer[k]@ == old(layer)[k]@,
            forall|k: int|
                0 <= k < j ==> (#[trigger] layer[k])@ == (NeuronModel {
                    inner: values[k],
                    ..old(layer)[k]@
                }),
        decreases n - j,
    {
        layer[j].inner = values[j];
        j += 1;
    }
    assert(layer.deep_view() =~= spec_with_activations(old(layer).deep_view(), values@));
}

/// Runs the forward pass in place, from the activations that the input layer holds.
fn forward<U: Fn(Op) -> u32>(net: &mut NeuralNetwork, unit: &U)
    requires
        answers_all(unit),
        spec_wired(old(net)@),
    ensures
        spec_same_parameters(final(net)@, old(net)@),
        final(net)@[0] == old(net)@[0],
        forall|f: spec_fn(Op) -> u32|
            computes(unit, f) ==> final(net)@ == spec_calculate_all_inners(f, old(net)@),
{
    let count: usize = net.hidden.len();
    let mut h: usize = 0;
    while h < count
        invariant
            answers_all(unit),
            spec_wired(old(net)@),
            h <= count,
            net.hidden.len() == count,
            old(net).hidden.len() == count,
            spec_same_parameters(net@, old(net)@),
            net@[0] == old(net)@[0],
            forall|k: int| h < k <= count + 1 ==> net@[k] == old(net)@[k],
            forall|f: spec_fn(Op) -> u32|
                computes(unit, f) ==> forall|k: nat|
                    k <= h ==> net@[k as int] == #[trigger] spec_forward_layer(f, old(net)@, k),
        decreases count - h,
    {
        let ghost before = net@;
        assert(spec_feeds(before[h as int], before[h + 1].len())) by {
            assert forall|i: int| 0 <= i < before[h as int].len() implies (
            #[trigger] before[h as int][i]).weights.len() == before[h + 1].len() by {
                assert(old(net)@[h as int][i].weights.len() == old(net)@[h + 1].len());
            }
        }
        let values = if h == 0 {
            layer_activations(&net.input, &net.hidden[0], false, unit)
        } else {
            layer_activations(&net.hidden[h - 1], &net.hidden[h], false, unit)
        };
        set_activations(&mut net.hidden[h], &values);
        h += 1;
        proof {
            let now = net@;
            assert(now.len() == before.len());
            assert forall|k: int| 0 <= k < now.len() && k != h implies now[k] == before[k] by {}
            assert(now[h as int] == spec_with_activations(before[h as int], values@));
            assert forall|f: spec_fn(Op) -> u32| computes(unit, f) implies forall|k: nat|
                k <= h ==> now[k as int] == #[trigger] spec_forward_layer(f, old(net)@, k) by {
                assert(before[h - 1] == spec_forward_layer(f, old(net)@, (h - 1) as nat));
                assert(before[h as int] == old(net)@[h as int]);
            }
        }
    }
    let ghost before = net@;
    assert(spec_feeds(before[count as int], before[count + 1].len())) by {
        assert forall|i: int| 0 <= i < before[count as int].len() implies (
        #[trigger] before[count as int][i]).weights.len() == before[count + 1].len() by {
            assert(old(net)@[count as int][i].weights.len() == old(net)@[count + 1].len());
        }
    }
    let values = if count == 0 {
        layer_activations(&net.input, &net.output, true, unit)
    } else {
        layer_activations(&net.hidden[count - 1], &net.output, true, unit)
    };
    set_activations(&mut net.output, &values);
    proof {
        let now = net@;
        assert(now.len() == before.len());
        assert forall|k: int| 0 <= k < now.len() && k != count + 1 implies now[k] == before[k] by {}
        assert(now[count + 1] == spec_with_activations(before[count + 1], values@));
        assert forall|f: spec_fn(Op) -> u32| computes(unit, f) implies now
            == spec_calculate_all_inners(f, old(net)@) by {
            assert(before[count as int] == spec_forward_layer(f, old(net)@, count as nat));
            assert(before[count + 1] == old(net)@[count + 1]);
            assert(now[count + 1] == spec_forward_layer(f, old(net)@, (count + 1) as nat));
            assert(now =~= spec_calculate_all_inners(f, old(net)@));
        }
    }
}

/// A copy of the network after a forward pass from the activations that its input layer holds.
/// Weights and biases are those of `network`.
pub fn calculate_all_inners<U: Fn(Op) -> u32>(network: &NeuralNetwork, unit: &U) -> (r:
    NeuralNetwork)
    requires
        answers_all(unit),
        spec_wired(network@),
    ensures
        spec_same_parameters(r@, network@),
        r@[0] == network@[0],
        forall|f: spec_fn(Op) -> u32|
            computes(unit, f) ==> r@ == spec_calculate_all_inners(f, network@),
{
    let mut net = network.clone();
    forward(&mut net, unit);
    net
}

/// Copies `input` into the activations of the input layer, one to one by position, and runs the
/// forward pass. Fails, and leaves the network as it was, where `input` is not as long as the
/// input layer.
pub fn propagate<U: Fn(Op) -> u32>(
    network: &mut NeuralNetwork,
    input: &Vec<u32>,
    unit: &U,
) -> (r: Result<(), ShapeError>)
    requires
        answers_all(unit),
        spec_wired(old(network)@),
    ensures
        match r {
            Ok(_) => {
                &&& input.len() == old(network)@[0].len()
                &&& spec_same_parameters(final(network)@, old(network)@)
                &&& final(network)@[0] == spec_with_activations(old(network)@[0], input@)
                &&& forall|f: spec_fn(Op) -> u32|
                    computes(unit, f) ==> final(network)@ == spec_propagate(
                        f,
                        old(network)@,
                        input@,
                    )
            },
            Err(e) => {
                &&& input.len() != old(network)@[0].len()
                &&& e == (ShapeError { expected: old(network).input.len(), found: input.len() })
                &&& *final(network) == *old(network)
            },
        },
{
    if input.len() != network.input.len() {
        return Err(ShapeError { expected: network.input.len(), found: input.len() });
    }
    set_activations(&mut network.input, input);
    proof {
        assert(network@ =~= spec_with_input(old(network)@, input@));
        assert(spec_same_parameters(network@, old(network)@));
        assert(spec_wired(network@)) by {
            assert forall|l: int, i: int|
                0 <= l < network@.len() - 1 && 0 <= i < network@[l].len() implies (
            #[trigger] network@[l][i]).weights.len() == network@[l + 1].len() by {
                assert(old(network)@[l][i].weights.len() == old(network)@[l + 1].len());
            }
        }
    }
    forward(network, unit);
    Ok(())
}

/// A forward pass reads the activations of the input layer, and of the other layers only the
/// biases and the weights: two networks that agree on these come out of it equal.
pub proof fn lemma_forward_reads_parameters(
    f: spec_fn(Op) -> u32,
    a: Seq<Seq<NeuronModel>>,
    b: Seq<Seq<NeuronModel>>,
)
    requires
        a.len() >= 1,
        spec_same_parameters(a, b),
        a[0] == b[0],
    ensures
        spec_calculate_all_inners(f, a) == spec_calculate_all_inners(f, b),
{
    assert forall|l: nat| l < a.len() implies spec_forward_layer(f, a, l) == spec_forward_layer(
        f,
        b,
        l,
    ) by {
        lemma_forward_layer_reads_parameters(f, a, b, l);
    }
    assert(spec_calculate_all_inners(f, a) =~= spec_calculate_all_inners(f, b));
}

/// Layer by layer, a forward pass is the same on two networks that agree on the input layer and
/// on every bias and weight.
proof fn lemma_forward_layer_reads_parameters(
    f: spec_fn(Op) -> u32,
    a: Seq<Seq<NeuronModel>>,
    b: Seq<Seq<NeuronModel>>,
    l: nat,
)
    requires
        l < a.len(),
        spec_same_parameters(a, b),
        a[0] == b[0],
    ensures
        spec_forward_layer(f, a, l) == spec_forward_layer(f, b, l),
    decreases l,
{
    if l > 0 {
        lemma_forward_layer_reads_parameters(f, a, b, (l - 1) as nat);
        let prev = spec_forward_layer(f, a, (l - 1) as nat);
        let last = l == a.len() - 1;
        let in_a = spec_layer_activations(f, prev, a[l as int], last);
        let in_b = spec_layer_activations(f, prev, b[l as int], last);
        assert(in_a =~= in_b) by {
            assert forall|j: int| 0 <= j < a[l as int].len() implies in_a[j] == in_b[j] by {
                assert(a[l as int][j].bias == b[l as int][j].bias);
            }
        }
        assert(spec_with_activations(a[l as int], in_a) =~= spec_with_activations(
            b[l as int],
            in_b,
        )) by {
            assert forall|j: int| 0 <= j < a[l as int].len() implies spec_with_activations(
                a[l as int],
                in_a,
            )[j] == spec_with_activations(b[l as int], in_b)[j] by {
                assert(a[l as int][j].bias == b[l as int][j].bias);
                assert(a[l as int][j].weights == b[l as int][j].weights);
            }
        }
    }
}

/// A forward pass keeps every bias and every weight, and the size of every layer.
pub proof fn lemma_forward_keeps_parameters(f: spec_fn(Op) -> u32, net: Seq<Seq<NeuronModel>>)
    ensures
        spec_same_parameters(spec_calculate_all_inners(f, net), net),
{
    let after = spec_calculate_all_inners(f, net);
    assert forall|l: int| 0 <= l < after.len() implies (#[trigger] after[l]).len()
        == net[l].len() by {
        reveal_with_fuel(spec_forward_layer, 1);
    }
    assert forall|l: int, i: int| 0 <= l < after.len() && 0 <= i < after[l].len() implies (
    #[trigger] after[l][i]).bias == net[l][i].bias && after[l][i].weights
        == net[l][i].weights by {
        reveal_with_fuel(spec_forward_layer, 1);
    }
}

/// Forward determinism: a second forward pass from the same input, on the network as the first
/// pass left it, leaves every activation as it is.
pub proof fn lemma_propagate_twice(
    f: spec_fn(Op) -> u32,
    net: Seq<Seq<NeuronModel>>,
    input: Seq<u32>,
)
    requires
        net.len() >= 1,
    ensures
        spec_propagate(f, spec_propagate(f, net, input), input) == spec_propagate(f, net, input),
{
    let start = spec_with_input(net, input);
    let once = spec_propagate(f, net, input);
    let again = spec_with_input(once, input);
    lemma_forward_keeps_parameters(f, start);
    assert(once[0] == start[0]);
    assert(again[0] =~= start[0]);
    assert(spec_same_parameters(again, start)) by {
        assert forall|l: int, i: int| 0 <= l < again.len() && 0 <= i < again[l].len() implies (
        #[trigger] again[l][i]).bias == start[l][i].bias && again[l][i].weights
            == start[l][i].weights by {
            if l > 0 {
                assert(again[l][i] == once[l][i]);
            }
        }
    }
    lemma_forward_reads_parameters(f, again, start);
}

/// Forward determinism: whatever two forward passes from the same input make of the same
/// network under the same arithmetic, they make the same of it.
pub proof fn lemma_propagate_deterministic<U: Fn(Op) -> u32>(
    unit: &U,
    f: spec_fn(Op) -> u32,
    net: Seq<Seq<NeuronModel>>,
    input: Seq<u32>,
    first: Seq<Seq<NeuronModel>>,
    second: Seq<Seq<NeuronModel>>,
)
    requires
        computes(unit, f),
        forall|g: spec_fn(Op) -> u32| computes(unit, g) ==> first == spec_propagate(g, net, input),
        forall|g: spec_fn(Op) -> u32| computes(unit, g) ==> second == spec_propagate(g, net, input),
    ensures
        first == second,
{
}

} // verus!
