//! Training examples, and layers by their index.

use crate::network::{clone_layer, NeuralNetwork};
use crate::neuron::{Neuron, NeuronModel};
use vstd::prelude::*;

verus! {

/// One training example: what the network is shown, and what it should answer.
#[derive(Debug, PartialEq, Eq)]
pub struct TrainingData<V1, V2> {
    /// The target, one value per output neuron.
    pub label: Vec<V1>,
    /// The input, one value per input neuron.
    pub data: Vec<V2>,
}

impl TrainingData<u8, u8> {
    /// The example with a copy of `label` as its target and a copy of `data` as its input.
    pub fn new(label: &Vec<u8>, data: &Vec<u8>) -> (r: TrainingData<u8, u8>)
        ensures
            r.label@ == label@,
            r.data@ == data@,
    {
        TrainingData { label: label.clone(), data: data.clone() }
    }
}

/// The layer that [`get_layer`] gives for `index`: the layer of that index, or no neurons where
/// the network has no such layer.
pub open spec fn spec_get_layer(net: Seq<Seq<NeuronModel>>, index: int) -> Seq<NeuronModel> {
    if 0 <= index < net.len() {
        net[index]
    } else {
        Seq::empty()
    }
}

/// A copy of layer `index` of the network, or an empty layer where it has no such layer.
pub fn get_layer(network: &NeuralNetwork, index: usize) -> (r: Vec<Neuron>)
    ensures
        r.deep_view() == spec_get_layer(network@, index as int),
{
    match network.get_layer(index) {
        Some(layer) => clone_layer(layer),
        None => {
            let r: Vec<Neuron> = Vec::new();
            assert(r.deep_view() =~= Seq::empty());
            r
        },
    }
}

/// The examples for a list of pairs, in the order of the list. Each pair holds a target first
/// and the input that it belongs to second.
pub fn training_data_from_items(items: &Vec<(Vec<u8>, Vec<u8>)>) -> (r: Vec<TrainingData<u8, u8>>)
    ensures
        r.len() == items.len(),
        forall|k: int|
            0 <= k < items.len() ==> (#[trigger] r[k]).label@ == items[k].0@ && r[k].data@
                == items[k].1@,
{
    let mut r: Vec<TrainingData<u8, u8>> = Vec::new();
    let mut k: usize = 0;
    while k < items.len()
        invariant
            k <= items.len(),
            r.len() == k,
            forall|i: int|
                0 <= i < k ==> (#[trigger] r[i]).label@ == items[i].0@ && r[i].data@
                    == items[i].1@,
        decreases items.len() - k,
    {
        r.push(TrainingData::new(&items[k].0, &items[k].1));
        k += 1;
    }
    r
}

} // verus!
