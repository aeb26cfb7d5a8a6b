//! A single unit of the network.

use crate::arithmetic::{answers_all, computes, Op, ZERO};
use vstd::prelude::*;

verus! {

/// A unit of the network: its activation, its bias, and the weights of its connections into the
/// next layer, one per neuron of that layer and in that layer's order.
#[derive(Debug, PartialEq, Eq)]
pub struct Neuron {
    /// The activation: the unit's current output.
    pub inner: u32,
    /// The bias, added to the weighted sum that reaches the unit.
    pub bias: u32,
    /// The outgoing weights; `weights[j]` belongs to the connection to neuron `j` of the next
    /// layer.
    pub weights: Vec<u32>,
}

/// What a neuron holds, as mathematical values.
pub struct NeuronModel {
    /// The activation.
    pub inner: u32,
    /// The bias.
    pub bias: u32,
    /// The outgoing weights, in the order of the next layer.
    pub weights: Seq<u32>,
}

impl View for Neuron {
    type V = NeuronModel;

    open spec fn view(&self) -> NeuronModel {
        NeuronModel { inner: self.inner, bias: self.bias, weights: self.weights@ }
    }
}

impl DeepView for Neuron {
    type V = NeuronModel;

    open spec fn deep_view(&self) -> NeuronModel {
        self@
    }
}

impl Clone for Neuron {
    fn clone(&self) -> (r: Self)
        ensures
            r@ == self@,
    {
        Neuron { inner: self.inner, bias: self.bias, weights: self.weights.clone() }
    }
}

/// The weights of a neuron in state `n` once each has moved against its gradient: weight `j`
/// less `learning_rate * deltas[j] * n.inner`.
pub open spec fn spec_updated_weights(
    f: spec_fn(Op) -> u32,
    n: NeuronModel,
    learning_rate: u32,
    deltas: Seq<u32>,
) -> Seq<u32> {
    Seq::new(
        n.weights.len(),
        |j: int| f(Op::Sub(n.weights[j], f(Op::Mul(f(Op::Mul(learning_rate, deltas[j])), n.inner)))),
    )
}

/// A bias once it has moved against its gradient: `bias - learning_rate * delta`.
pub open spec fn spec_updated_bias(
    f: spec_fn(Op) -> u32,
    bias: u32,
    learning_rate: u32,
    delta: u32,
) -> u32 {
    f(Op::Sub(bias, f(Op::Mul(learning_rate, delta))))
}

impl Neuron {
    /// A neuron at rest: activation and bias zero, no connections.
    pub fn new() -> (r: Neuron)
        ensures
            r@ == (NeuronModel { inner: ZERO, bias: ZERO, weights: Seq::empty() }),
    {
        Neuron { inner: ZERO, bias: ZERO, weights: Vec::new() }
    }

    /// A neuron with the given activation, bias zero and no connections.
    pub fn with_inner(inner: u32) -> (r: Neuron)
        ensures
            r@ == (NeuronModel { inner: inner, bias: ZERO, weights: Seq::empty() }),
    {
        Neuron { inner, bias: ZERO, weights: Vec::new() }
    }

    /// Moves every outgoing weight against its gradient. `deltas` are the error signals of the
    /// next layer, so `deltas[j]` meets `weights[j]`.
    pub fn update_weights<U: Fn(Op) -> u32>(
        &mut self,
        learning_rate: u32,
        deltas: &Vec<u32>,
        unit: &U,
    )
        requires
            answers_all(unit),
            deltas.len() == old(self).weights.len(),
        ensures
            final(self).inner == old(self).inner,
            final(self).bias == old(self).bias,
            final(self).weights.len() == old(self).weights.len(),
            forall|f: spec_fn(Op) -> u32|
                computes(unit, f) ==> final(self).weights@ == spec_updated_weights(
                    f,
                    old(self)@,
                    learning_rate,
                    deltas@,
                ),
    {
        let n: usize = self.weights.len();
        let mut j: usize = 0;
        while j < n
            invariant
                answers_all(unit),
                j <= n,
                n == self.weights.len(),
                n == deltas.len(),
                n == old(self).weights.len(),
                self.inner == old(self).inner,
                self.bias == old(self).bias,
                forall|k: int| j <= k < n ==> self.weights[k] == old(self).weights[k],
                forall|f: spec_fn(Op) -> u32|
                    computes(unit, f) ==> forall|k: int|
                        0 <= k < j ==> self.weights[k] == #[trigger] spec_updated_weights(
                            f,
                            old(self)@,
                            learning_rate,
                            deltas@,
                        )[k],
            decreases n - j,
        {
            let scaled = unit(Op::Mul(learning_rate, deltas[j]));
            let step = unit(Op::Mul(scaled, self.inner));
            let moved = unit(Op::Sub(self.weights[j], step));
            self.weights[j] = moved;
            j += 1;
        }
        assert forall|f: spec_fn(Op) -> u32| computes(unit, f) implies self.weights@
            == spec_updated_weights(f, old(self)@, learning_rate, deltas@) by {
            assert(self.weights@ =~= spec_updated_weights(f, old(self)@, learning_rate, deltas@));
        }
    }

    /// Moves the bias against its gradient.
    pub fn update_bias<U: Fn(Op) -> u32>(&mut self, learning_rate: u32, delta: u32, unit: &U)
        requires
            answers_all(unit),
        ensures
            final(self).inner == old(self).inner,
            final(self).weights == old(self).weights,
            forall|f: spec_fn(Op) -> u32|
                computes(unit, f) ==> final(self).bias == spec_updated_bias(
                    f,
                    old(self).bias,
                    learning_rate,
                    delta,
                ),
    {
        let step = unit(Op::Mul(learning_rate, delta));
        self.bias = unit(Op::Sub(self.bias, step));
    }
}

} // verus!
