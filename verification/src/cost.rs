//! The cost: how far the output layer is from a target.

use crate::arithmetic::{answers_all, computes, Op, ZERO};
use crate::network::{NeuralNetwork, ShapeError};
use crate::neuron::{Neuron, NeuronModel};
use vstd::prelude::*;

verus! {

/// The squared errors of the first `n` output neurons, summed in their order from zero.
pub open spec fn spec_squared_error_sum(
    f: spec_fn(Op) -> u32,
    output: Seq<NeuronModel>,
    target: Seq<u32>,
    n: nat,
) -> u32
    decreases n,
{
    if n == 0 {
        ZERO
    } else {
        let error = f(Op::Sub(output[n - 1].inner, target[n - 1]));
        f(
            Op::Add(
                spec_squared_error_sum(f, output, target, (n - 1) as nat),
                f(Op::Mul(error, error)),
            ),
        )
    }
}

/// The mean squared error of an output layer against a target of the same length: the sum of
/// the squared errors divided by the number of output neurons.
pub open spec fn spec_mean_squared_error(
    f: spec_fn(Op) -> u32,
    output: Seq<NeuronModel>,
    target: Seq<u32>,
) -> u32 {
    f(
        Op::Div(
            spec_squared_error_sum(f, output, target, output.len()),
            f(Op::FromCount(output.len() as usize)),
        ),
    )
}

/// The squared errors of a layer against `target`, summed.
fn squared_error_sum<U: Fn(Op) -> u32>(output: &Vec<Neuron>, target: &Vec<u32>, unit: &U) -> (r:
    u32)
    requires
        answers_all(unit),
        target.len() == output.len(),
    ensures
        forall|f: spec_fn(Op) -> u32|
            computes(unit, f) ==> r == spec_squared_error_sum(
                f,
                output.deep_view(),
                target@,
                output.len() as nat,
            ),
{
    let mut sum: u32 = ZERO;
    let mut j: usize = 0;
    while j < output.len()
        invariant
            answers_all(unit),
            j <= output.len(),
            target.len() == output.len(),
            forall|f: spec_fn(Op) -> u32|
                computes(unit, f) ==> sum == spec_squared_error_sum(
                    f,
                    output.deep_view(),
                    target@,
                    j as nat,
                ),
        decreases output.len() - j,
    {
        let error = unit(Op::Sub(output[j].inner, target[j]));
        let square = unit(Op::Mul(error, error));
        sum = unit(Op::Add(sum, square));
        j += 1;
    }
    sum
}

/// The mean squared error of the network's output layer against `target`. Fails where `target`
/// is not as long as the output layer. The network is only read.
pub fn mean_squared_error<U: Fn(Op) -> u32>(
    target: &Vec<u32>,
    network: &NeuralNetwork,
    unit: &U,
) -> (r: Result<u32, ShapeError>)
    requires
        answers_all(unit),
    ensures
        match r {
            Ok(cost) => target.len() == network@.last().len() && forall|f: spec_fn(Op) -> u32|
                computes(unit, f) ==> cost == spec_mean_squared_error(
                    f,
                    network@.last(),
                    target@,
                ),
            Err(e) => target.len() != network@.last().len() && e == (ShapeError {
                expected: network.output.len(),
                found: target.len(),
            }),
        },
{
    if target.len() != network.output.len() {
        return Err(ShapeError { expected: network.output.len(), found: target.len() });
    }
    let sum = squared_error_sum(&network.output, target, unit);
    let count = unit(Op::FromCount(network.output.len()));
    Ok(unit(Op::Div(sum, count)))
}

} // verus!
