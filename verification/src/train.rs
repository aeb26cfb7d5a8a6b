//! Training: one step of gradient descent by backpropagation.

use crate::arithmetic::{answers_all, computes, leaky_slope, spec_leaky_slope, Op, ONE, ZERO};
use crate::calculate_inners::{
    lemma_forward_keeps_parameters, propagate, spec_propagate, spec_with_input,
};
use crate::network_utils::TrainingData;
use crate::network::{spec_feeds, spec_same_shape, spec_wired, NeuralNetwork, ShapeError};
use crate::neuron::{spec_updated_bias, spec_updated_weights, Neuron, NeuronModel};
use vstd::prelude::*;

verus! {

/// The error signal of an output neuron with activation `a` against the target `t`:
/// `(a - t) * a * (1 - a)`, the error times the derivative of the logistic function.
pub open spec fn spec_output_delta(f: spec_fn(Op) -> u32, a: u32, t: u32) -> u32 {
    f(Op::Mul(f(Op::Mul(f(Op::Sub(a, t)), a)), f(Op::Sub(ONE, a))))
}

/// The error signals of the output layer.
pub open spec fn spec_output_deltas(
    f: spec_fn(Op) -> u32,
    output: Seq<NeuronModel>,
    target: Seq<u32>,
) -> Seq<u32> {
    Seq::new(output.len(), |j: int| spec_output_delta(f, output[j].inner, target[j]))
}

/// What the first `m` neurons of the next layer send back to the neuron `n`: starting from
/// zero, each in turn adds its error signal times the weight of its connection from `n`.
pub open spec fn spec_backward_sum(
    f: spec_fn(Op) -> u32,
    n: NeuronModel,
    deltas: Seq<u32>,
    m: nat,
) -> u32
    decreases m,
{
    if m == 0 {
        ZERO
    } else {
        f(
            Op::Add(
                spec_backward_sum(f, n, deltas, (m - 1) as nat),
                f(Op::Mul(deltas[m - 1], n.weights[m - 1])),
            ),
        )
    }
}

/// The error signal of a hidden neuron: what the next layer sends back, times the derivative of
/// the leaky rectifier, which is read off the sign of the neuron's activation.
pub open spec fn spec_hidden_delta(f: spec_fn(Op) -> u32, n: NeuronModel, deltas: Seq<u32>) -> u32 {
    f(Op::Mul(spec_backward_sum(f, n, deltas, deltas.len()), spec_leaky_slope(n.inner)))
}

/// The error signals of a hidden layer, given those of the layer after it.
pub open spec fn spec_hidden_deltas(
    f: spec_fn(Op) -> u32,
    layer: Seq<NeuronModel>,
    deltas: Seq<u32>,
) -> Seq<u32> {
    Seq::new(layer.len(), |i: int| spec_hidden_delta(f, layer[i], deltas))
}

/// The error signals of layer `l` of a network that a forward pass has run through. Those of
/// the output layer come from the target, those of a hidden layer from the layer after it.
pub open spec fn spec_deltas(
    f: spec_fn(Op) -> u32,
    net: Seq<Seq<NeuronModel>>,
    target: Seq<u32>,
    l: nat,
) -> Seq<u32>
    decreases net.len() - l,
{
    if l + 1 >= net.len() {
        spec_output_deltas(f, net.last(), target)
    } else {
        spec_hidden_deltas(f, net[l as int], spec_deltas(f, net, target, l + 1))
    }
}

/// A layer after one step. With `own`, the layer's error signals, each bias moves against its
/// gradient; with `next`, the error signals of the layer after it, each weight does.
/// Activations stay.
pub open spec fn spec_trained_layer(
    f: spec_fn(Op) -> u32,
    layer: Seq<NeuronModel>,
    learning_rate: u32,
    own: Option<Seq<u32>>,
    next: Option<Seq<u32>>,
) -> Seq<NeuronModel> {
    Seq::new(
        layer.len(),
        |i: int|
            NeuronModel {
                inner: layer[i].inner,
                bias: match own {
                    Some(d) => spec_updated_bias(f, layer[i].bias, learning_rate, d[i]),
                    None => layer[i].bias,
                },
                weights: match next {
                    Some(d) => spec_updated_weights(f, layer[i], learning_rate, d),
                    None => layer[i].weights,
                },
            },
    )
}

/// The network after one training step: a forward pass from `input`, the error signals of every
/// layer but the first from that pass and `target`, and then the update of every bias but
/// those of the input layer and of every weight. All error signals are those of the network
/// before any update.
pub open spec fn spec_train_step(
    f: spec_fn(Op) -> u32,
    net: Seq<Seq<NeuronModel>>,
    input: Seq<u32>,
    target: Seq<u32>,
    learning_rate: u32,
) -> Seq<Seq<NeuronModel>> {
    let passed = spec_propagate(f, net, input);
    Seq::new(
        passed.len(),
        |l: int|
            spec_trained_layer(
                f,
                passed[l],
                learning_rate,
                if l == 0 {
                    None
                } else {
                    Some(spec_deltas(f, passed, target, l as nat))
                },
                if l == passed.len() - 1 {
                    None
                } else {
                    Some(spec_deltas(f, passed, target, (l + 1) as nat))
                },
            ),
    )
}

/// The view of an optional vector.
spec fn spec_optional(v: Option<&Vec<u32>>) -> Option<Seq<u32>> {
    match v {
        Some(d) => Some(d@),
        None => None,
    }
}

/// The error signals of the output layer against `target`.
fn output_deltas<U: Fn(Op) -> u32>(output: &Vec<Neuron>, target: &Vec<u32>, unit: &U) -> (r: Vec<
    u32,
>)
    requires
        answers_all(unit),
        target.len() == output.len(),
    ensures
        r.len() == output.len(),
        forall|f: spec_fn(Op) -> u32|
            computes(unit, f) ==> r@ == spec_output_deltas(f, output.deep_view(), target@),
{
    let mut r: Vec<u32> = Vec::new();
    let mut j: usize = 0;
    while j < output.len()
        invariant
            answers_all(unit),
            j <= output.len(),
            target.len() == output.len(),
            r.len() == j,
            forall|f: spec_fn(Op) -> u32|
                computes(unit, f) ==> forall|k: int|
                    0 <= k < j ==> r[k] == #[trigger] spec_output_deltas(
                        f,
                        output.deep_view(),
                        target@,
                    )[k],
        decreases output.len() - j,
    {
        let a = output[j].inner;
        let error = unit(Op::Sub(a, target[j]));
        let scaled = unit(Op::Mul(error, a));
        let rest = unit(Op::Sub(ONE, a));
        r.push(unit(Op::Mul(scaled, rest)));
        j += 1;
    }
    assert forall|f: spec_fn(Op) -> u32| computes(unit, f) implies r@ == spec_output_deltas(
        f,
        output.deep_view(),
        target@,
    ) by {
        assert(r@ =~= spec_output_deltas(f, output.deep_view(), target@));
    }
    r
}

/// What the next layer, with error signals `deltas`, sends back to `neuron`.
fn backward_sum<U: Fn(Op) -> u32>(neuron: &Neuron, deltas: &Vec<u32>, unit: &U) -> (r: u32)
    requires
        answers_all(unit),
        neuron.weights.len() == deltas.len(),
    ensures
        forall|f: spec_fn(Op) -> u32|
            computes(unit, f) ==> r == spec_backward_sum(f, neuron@, deltas@, deltas.len() as nat),
{
    let mut sum: u32 = ZERO;
    let mut j: usize = 0;
    while j < deltas.len()
        invariant
            answers_all(unit),
            j <= deltas.len(),
            neuron.weights.len() == deltas.len(),
            forall|f: spec_fn(Op) -> u32|
                computes(unit, f) ==> sum == spec_backward_sum(f, neuron@, deltas@, j as nat),
        decreases deltas.len() - j,
    {
        let product = unit(Op::Mul(deltas[j], neuron.weights[j]));
        sum = unit(Op::Add(sum, product));
        j += 1;
    }
    sum
}

/// The error signals of a hidden layer, given those of the layer after it.
fn hidden_deltas<U: Fn(Op) -> u32>(layer: &Vec<Neuron>, deltas: &Vec<u32>, unit: &U) -> (r: Vec<
    u32,
>)
    requires
        answers_all(unit),
        spec_feeds(layer.deep_view(), deltas.len() as nat),
    ensures
        r.len() == layer.len(),
        forall|f: spec_fn(Op) -> u32|
            computes(unit, f) ==> r@ == spec_hidden_deltas(f, layer.deep_view(), deltas@),
{
    let mut r: Vec<u32> = Vec::new();
    let mut i: usize = 0;
    while i < layer.len()
        invariant
            answers_all(unit),
            i <= layer.len(),
            spec_feeds(layer.deep_view(), deltas.len() as nat),
            r.len() == i,
            forall|f: spec_fn(Op) -> u32|
                computes(unit, f) ==> forall|k: int|
                    0 <= k < i ==> r[k] == #[trigger] spec_hidden_deltas(
                        f,
                        layer.deep_view(),
                        deltas@,
                    )[k],
        decreases layer.len() - i,
    {
        assert(layer.deep_view()[i as int].weights.len() == deltas.len());
        let sum = backward_sum(&layer[i], deltas, unit);
        r.push(unit(Op::Mul(sum, leaky_slope(layer[i].inner))));
        i += 1;
    }
    assert forall|f: spec_fn(Op) -> u32| computes(unit, f) implies r@ == spec_hidden_deltas(
        f,
        layer.deep_view(),
        deltas@,
    ) by {
        assert(r@ =~= spec_hidden_deltas(f, layer.deep_view(), deltas@));
    }
    r
}

/// Updates a layer: each bias by the layer's own error signals, where `own` gives them, and
/// each weight by the error signals of the layer after it, where `next` gives them.
fn train_layer<U: Fn(Op) -> u32>(
    layer: &mut Vec<Neuron>,
    learning_rate: u32,
    own: Option<&Vec<u32>>,
    next: Option<&Vec<u32>>,
    unit: &U,
)
    requires
        answers_all(unit),
        own matches Some(d) ==> d.len() == old(layer).len(),
        next matches Some(d) ==> spec_feeds(old(layer).deep_view(), d.len() as nat),
    ensures
        final(layer).len() == old(layer).len(),
        forall|i: int|
            0 <= i < old(layer).len() ==> (#[trigger] final(layer)[i]).weights.len() == old(
                layer,
            )[i].weights.len(),
        forall|f: spec_fn(Op) -> u32|
            computes(unit, f) ==> final(layer).deep_view() == spec_trained_layer(
                f,
                old(layer).deep_view(),
                learning_rate,
                spec_optional(own),
                spec_optional(next),
            ),
{
    let n: usize = layer.len();
    let mut i: usize = 0;
    while i < n
        invariant
            answers_all(unit),
            i <= n,
            n == layer.len(),
            n == old(layer).len(),
            own matches Some(d) ==> d.len() == n,
            next matches Some(d) ==> spec_feeds(old(layer).deep_view(), d.len() as nat),
            forall|k: int| i <= k < n ==> layer[k]@ == old(layer)[k]@,
            forall|k: int|
                0 <= k < n ==> (#[trigger] layer[k]).weights.len() == old(layer)[k].weights.len(),
            forall|f: spec_fn(Op) -> u32|
                computes(unit, f) ==> forall|k: int|
                    0 <= k < i ==> layer[k]@ == #[trigger] spec_trained_layer(
                        f,
                        old(layer).deep_view(),
                        learning_rate,
                        spec_optional(own),
                        spec_optional(next),
                    )[k],
        decreases n - i,
    {
        let ghost before = layer@;
        if let Some(d) = next {
            assert(old(layer).deep_view()[i as int].weights.len() == d.len());
            layer[i].update_weights(learning_rate, d, unit);
        }
        if let Some(d) = own {
            layer[i].update_bias(learning_rate, d[i], unit);
        }
        assert(forall|k: int| 0 <= k < n && k != i ==> layer[k] == before[k]);
        i += 1;
    }
    assert forall|f: spec_fn(Op) -> u32| computes(unit, f) implies layer.deep_view()
        == spec_trained_layer(
        f,
        old(layer).deep_view(),
        learning_rate,
        spec_optional(own),
        spec_optional(next),
    ) by {
        assert(layer.deep_view() =~= spec_trained_layer(
            f,
            old(layer).deep_view(),
            learning_rate,
            spec_optional(own),
            spec_optional(next),
        ));
    }
}

/// A vector of `n` empty vectors.
fn empty_rows(n: usize) -> (r: Vec<Vec<u32>>)
    ensures
        r.len() == n,
        forall|k: int| 0 <= k < n ==> (#[trigger] r[k]).len() == 0,
{
    let mut r: Vec<Vec<u32>> = Vec::new();
    let mut k: usize = 0;
    while k < n
        invariant
            k <= n,
            r.len() == k,
            forall|i: int| 0 <= i < k ==> (#[trigger] r[i]).len() == 0,
        decreases n - k,
    {
        r.push(Vec::new());
        k += 1;
    }
    r
}

/// One training step on one example: a forward pass from `input`, then every weight and every
/// bias behind the input layer moves against the gradient of the squared error against
/// `target`. Fails, and leaves the network as it was, where `input` is not as long as the input
/// layer or, that being so, `target` is not as long as the output layer.
pub fn train_step<U: Fn(Op) -> u32>(
    network: &mut NeuralNetwork,
    input: &Vec<u32>,
    target: &Vec<u32>,
    learning_rate: u32,
    unit: &U,
) -> (r: Result<(), ShapeError>)
    requires
        answers_all(unit),
        spec_wired(old(network)@),
    ensures
        spec_wired(final(network)@),
        spec_same_shape(final(network)@, old(network)@),
        match r {
            Ok(_) => {
                &&& input.len() == old(network)@[0].len()
                &&& target.len() == old(network)@.last().len()
                &&& forall|f: spec_fn(Op) -> u32|
                    computes(unit, f) ==> final(network)@ == spec_train_step(
                        f,
                        old(network)@,
                        input@,
                        target@,
                        learning_rate,
                    )
            },
            Err(e) => {
                &&& *final(network) == *old(network)
                &&& if input.len() != old(network)@[0].len() {
                    e == (ShapeError { expected: old(network).input.len(), found: input.len() })
                } else {
                    &&& target.len() != old(network)@.last().len()
                    &&& e == (ShapeError {
                        expected: old(network).output.len(),
                        found: target.len(),
                    })
                }
            },
        },
{
    if input.len() != network.input.len() {
        return Err(ShapeError { expected: network.input.len(), found: input.len() });
    }
    if target.len() != network.output.len() {
        return Err(ShapeError { expected: network.output.len(), found: target.len() });
    }
    let outcome = propagate(network, input, unit);
    let ghost passed = network@;
    let count: usize = network.hidden.len();
    assert(outcome is Ok);
    assert(passed.len() == count + 2);
    assert(network.output.deep_view() == passed[count + 1]);
    assert(old(network).output.deep_view() == old(network)@[count + 1]);
    assert(spec_wired(passed)) by {
        assert forall|l: int, i: int| 0 <= l < passed.len() - 1 && 0 <= i < passed[l].len() implies (
        #[trigger] passed[l][i]).weights.len() == passed[l + 1].len() by {
            assert(old(network)@[l][i].weights.len() == old(network)@[l + 1].len());
        }
    }

    let last = output_deltas(&network.output, target, unit);
    let mut rows: Vec<Vec<u32>> = empty_rows(count);
    let mut h: usize = count;
    while h > 0
        invariant
            answers_all(unit),
            h <= count,
            count == network.hidden.len(),
            network@ == passed,
            spec_wired(passed),
            passed.len() == count + 2,
            rows.len() == count,
            last.len() == passed[count + 1].len(),
            forall|k: int| h <= k < count ==> (#[trigger] rows[k]).len() == passed[k + 1].len(),
            forall|f: spec_fn(Op) -> u32|
                computes(unit, f) ==> last@ == spec_deltas(f, passed, target@, (count + 1) as nat),
            forall|f: spec_fn(Op) -> u32|
                computes(unit, f) ==> forall|k: int|
                    h <= k < count ==> (#[trigger] rows[k])@ == spec_deltas(
                        f,
                        passed,
                        target@,
                        (k + 1) as nat,
                    ),
        decreases h,
    {
        h -= 1;
        assert(network.hidden[h as int].deep_view() == passed[h + 1]);
        assert(spec_feeds(passed[h + 1], passed[h + 2].len())) by {
            assert forall|i: int| 0 <= i < passed[h + 1].len() implies (
            #[trigger] passed[h + 1][i]).weights.len() == passed[h + 2].len() by {}
        }
        let row = if h + 1 == count {
            hidden_deltas(&network.hidden[h], &last, unit)
        } else {
            hidden_deltas(&network.hidden[h], &rows[h + 1], unit)
        };
        let ghost before = rows@;
        rows[h] = row;
        proof {
            assert(forall|k: int| h < k < count ==> rows[k] == before[k]);
            assert forall|f: spec_fn(Op) -> u32| computes(unit, f) implies forall|k: int|
                h <= k < count ==> (#[trigger] rows[k])@ == spec_deltas(
                    f,
                    passed,
                    target@,
                    (k + 1) as nat,
                ) by {
                if h + 1 < count {
                    assert(before[h + 1]@ == spec_deltas(f, passed, target@, (h + 1 + 1) as nat));
                }
            }
        }
    }

    let ghost next_of_input = if count == 0 {
        last@
    } else {
        rows[0]@
    };
    assert(spec_feeds(passed[0], passed[1].len())) by {
        assert forall|i: int| 0 <= i < passed[0].len() implies (#[trigger] passed[0][i]).weights.len()
            == passed[1].len() by {}
    }
    if count == 0 {
        train_layer(&mut network.input, learning_rate, None, Some(&last), unit);
    } else {
        train_layer(&mut network.input, learning_rate, None, Some(&rows[0]), unit);
    }
    let mut h: usize = 0;
    while h < count
        invariant
            answers_all(unit),
            h <= count,
            count == network.hidden.len(),
            spec_wired(passed),
            passed.len() == count + 2,
            network@.len() == passed.len(),
            spec_same_shape(network@, passed),
            rows.len() == count,
            last.len() == passed[count + 1].len(),
            forall|k: int| 0 <= k < count ==> (#[trigger] rows[k]).len() == passed[k + 1].len(),
            forall|k: int| h < k <= count + 1 ==> network@[k] == passed[k],
            forall|f: spec_fn(Op) -> u32|
                computes(unit, f) ==> last@ == spec_deltas(f, passed, target@, (count + 1) as nat),
            forall|f: spec_fn(Op) -> u32|
                computes(unit, f) ==> forall|k: int|
                    0 <= k < count ==> (#[trigger] rows[k])@ == spec_deltas(
                        f,
                        passed,
                        target@,
                        (k + 1) as nat,
                    ),
            forall|f: spec_fn(Op) -> u32|
                computes(unit, f) ==> passed == spec_propagate(f, old(network)@, input@),
            forall|f: spec_fn(Op) -> u32|
                computes(unit, f) ==> forall|k: int|
                    0 <= k <= h ==> network@[k] == #[trigger] spec_train_step(
                        f,
                        old(network)@,
                        input@,
                        target@,
                        learning_rate,
                    )[k],
        decreases count - h,
    {
        let ghost before = network@;
        assert(network.hidden[h as int].deep_view() == passed[h + 1]);
        assert(spec_feeds(passed[h + 1], passed[h + 2].len())) by {
            assert forall|i: int| 0 <= i < passed[h + 1].len() implies (
            #[trigger] passed[h + 1][i]).weights.len() == passed[h + 2].len() by {}
        }
        if h + 1 == count {
            train_layer(&mut network.hidden[h], learning_rate, Some(&rows[h]), Some(&last), unit);
        } else {
            train_layer(
                &mut network.hidden[h],
                learning_rate,
                Some(&rows[h]),
                Some(&rows[h + 1]),
                unit,
            );
        }
        h += 1;
        proof {
            let now = network@;
            assert forall|k: int| 0 <= k < now.len() && k != h implies now[k] == before[k] by {}
            assert(spec_same_shape(now, passed)) by {
                assert forall|l: int, i: int|
                    0 <= l < now.len() && 0 <= i < now[l].len() implies (
                #[trigger] now[l][i]).weights.len() == passed[l][i].weights.len() by {
                    if l == h {
                        assert(now[l][i] == network.hidden[h - 1][i]@);
                        assert(passed[l][i] == before[l][i]);
                    } else {
                        assert(now[l][i] == before[l][i]);
                    }
                }
            }
            assert forall|f: spec_fn(Op) -> u32| computes(unit, f) implies forall|k: int|
                0 <= k <= h ==> now[k] == #[trigger] spec_train_step(
                    f,
                    old(network)@,
                    input@,
                    target@,
                    learning_rate,
                )[k] by {
                let goal = spec_train_step(f, old(network)@, input@, target@, learning_rate);
                assert(rows[h - 1]@ == spec_deltas(f, passed, target@, h as nat));
                if h < count {
                    assert(rows[h as int]@ == spec_deltas(f, passed, target@, (h + 1) as nat));
                }
                assert(now[h as int] == goal[h as int]);
                assert forall|k: int| 0 <= k < h implies now[k] == goal[k] by {
                    assert(before[k] == goal[k]);
                }
            }
        }
    }
    let ghost before = network@;
    train_layer(&mut network.output, learning_rate, Some(&last), None, unit);
    proof {
        let now = network@;
        assert forall|k: int| 0 <= k < now.len() && k != count + 1 implies now[k] == before[k] by {}
        assert(spec_same_shape(now, passed)) by {
            assert forall|l: int, i: int| 0 <= l < now.len() && 0 <= i < now[l].len() implies (
            #[trigger] now[l][i]).weights.len() == passed[l][i].weights.len() by {
                if l == count + 1 {
                    assert(now[l][i] == network.output[i]@);
                    assert(passed[l][i] == before[l][i]);
                } else {
                    assert(now[l][i] == before[l][i]);
                }
            }
        }
        assert(spec_same_shape(now, old(network)@));
        assert(spec_wired(now)) by {
            assert forall|l: int, i: int| 0 <= l < now.len() - 1 && 0 <= i < now[l].len() implies (
            #[trigger] now[l][i]).weights.len() == now[l + 1].len() by {
                assert(passed[l][i].weights.len() == passed[l + 1].len());
            }
        }
        assert forall|f: spec_fn(Op) -> u32| computes(unit, f) implies now == spec_train_step(
            f,
            old(network)@,
            input@,
            target@,
            learning_rate,
        ) by {
            assert(now =~= spec_train_step(f, old(network)@, input@, target@, learning_rate));
        }
    }
    Ok(())
}

/// The scalars nearest to a list of small numbers, each asked of the unit as a count.
pub open spec fn spec_scalars(f: spec_fn(Op) -> u32, values: Seq<u8>) -> Seq<u32> {
    Seq::new(values.len(), |i: int| f(Op::FromCount(values[i] as usize)))
}

/// The scalars nearest to a list of small numbers.
pub fn scalars<U: Fn(Op) -> u32>(values: &Vec<u8>, unit: &U) -> (r: Vec<u32>)
    requires
        answers_all(unit),
    ensures
        r.len() == values.len(),
        forall|f: spec_fn(Op) -> u32| computes(unit, f) ==> r@ == spec_scalars(f, values@),
{
    let mut r: Vec<u32> = Vec::new();
    let mut i: usize = 0;
    while i < values.len()
        invariant
            answers_all(unit),
            i <= values.len(),
            r.len() == i,
            forall|f: spec_fn(Op) -> u32|
                computes(unit, f) ==> forall|k: int|
                    0 <= k < i ==> r[k] == #[trigger] spec_scalars(f, values@)[k],
        decreases values.len() - i,
    {
        r.push(unit(Op::FromCount(values[i] as usize)));
        i += 1;
    }
    assert forall|f: spec_fn(Op) -> u32| computes(unit, f) implies r@ == spec_scalars(
        f,
        values@,
    ) by {
        assert(r@ =~= spec_scalars(f, values@));
    }
    r
}

/// One training step on one example: its data are the input and its label is the target, each
/// number turned into the scalar nearest to it. Fails as [`train_step`] does, and then leaves
/// the network as it was.
pub fn train_example<U: Fn(Op) -> u32>(
    network: &mut NeuralNetwork,
    example: &TrainingData<u8, u8>,
    learning_rate: u32,
    unit: &U,
) -> (r: Result<(), ShapeError>)
    requires
        answers_all(unit),
        spec_wired(old(network)@),
    ensures
        spec_wired(final(network)@),
        spec_same_shape(final(network)@, old(network)@),
        match r {
            Ok(_) => {
                &&& example.data.len() == old(network)@[0].len()
                &&& example.label.len() == old(network)@.last().len()
                &&& forall|f: spec_fn(Op) -> u32|
                    computes(unit, f) ==> final(network)@ == spec_train_step(
                        f,
                        old(network)@,
                        spec_scalars(f, example.data@),
                        spec_scalars(f, example.label@),
                        learning_rate,
                    )
            },
            Err(e) => {
                &&& *final(network) == *old(network)
                &&& if example.data.len() != old(network)@[0].len() {
                    e == (ShapeError {
                        expected: old(network).input.len(),
                        found: example.data.len(),
                    })
                } else {
                    &&& example.label.len() != old(network)@.last().len()
                    &&& e == (ShapeError {
                        expected: old(network).output.len(),
                        found: example.label.len(),
                    })
                }
            },
        },
{
    let input = scalars(&example.data, unit);
    let target = scalars(&example.label, unit);
    train_step(network, &input, &target, learning_rate, unit)
}

/// The shape invariant outlasts training: a step leaves every layer its size and every neuron
/// its number of weights, so a network in which every neuron has one weight per neuron of the
/// next layer is still such a network after it.
pub proof fn lemma_train_step_keeps_shape(
    f: spec_fn(Op) -> u32,
    net: Seq<Seq<NeuronModel>>,
    input: Seq<u32>,
    target: Seq<u32>,
    learning_rate: u32,
)
    requires
        net.len() >= 1,
    ensures
        spec_same_shape(spec_train_step(f, net, input, target, learning_rate), net),
        spec_wired(net) ==> spec_wired(spec_train_step(f, net, input, target, learning_rate)),
{
    let start = spec_with_input(net, input);
    let passed = spec_propagate(f, net, input);
    let after = spec_train_step(f, net, input, target, learning_rate);
    lemma_forward_keeps_parameters(f, start);
    assert(spec_same_shape(after, net)) by {
        assert forall|l: int| 0 <= l < after.len() implies (#[trigger] after[l]).len()
            == net[l].len() by {
            assert(passed[l].len() == start[l].len());
        }
        assert forall|l: int, i: int| 0 <= l < after.len() && 0 <= i < after[l].len() implies (
        #[trigger] after[l][i]).weights.len() == net[l][i].weights.len() by {
            assert(passed[l].len() == start[l].len());
            assert(passed[l][i].weights == start[l][i].weights);
        }
    }
    if spec_wired(net) {
        assert forall|l: int, i: int| 0 <= l < after.len() - 1 && 0 <= i < after[l].len() implies (
        #[trigger] after[l][i]).weights.len() == after[l + 1].len() by {
            assert(after[l + 1].len() == net[l + 1].len());
            assert(net[l][i].weights.len() == net[l + 1].len());
        }
    }
}

} // verus!
