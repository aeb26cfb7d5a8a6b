//! The network: an input layer, hidden layers and an output layer.

use crate::neuron::{Neuron, NeuronModel};
use vstd::prelude::*;

verus! {

/// A layered network. The layers are counted from the input layer, which is layer `0`; the
/// hidden layers follow in their order, and the output layer is the last.
#[derive(Debug, PartialEq, Eq)]
pub struct NeuralNetwork {
    /// The input layer, whose activations are the input of a forward pass.
    pub input: Vec<Neuron>,
    /// The hidden layers, from the one behind the input layer to the one before the output layer.
    pub hidden: Vec<Vec<Neuron>>,
    /// The output layer, whose activations are the result of a forward pass.
    pub output: Vec<Neuron>,
}

/// An input or target vector whose length is not the size of the layer that it is meant for.
#[derive(Debug, Clone, Copy, PartialEq, Eq)]
pub struct ShapeError {
    /// The number of neurons in the layer.
    pub expected: usize,
    /// The length of the vector.
    pub found: usize,
}

/// Every neuron of every layer but the last has one weight per neuron of the next layer.
pub open spec fn spec_wired(net: Seq<Seq<NeuronModel>>) -> bool {
    forall|l: int, i: int|
        0 <= l < net.len() - 1 && 0 <= i < net[l].len() ==> (#[trigger] net[l][i]).weights.len()
            == net[l + 1].len()
}

/// Every neuron of `prev` has one weight per neuron of a next layer of `n` neurons.
pub open spec fn spec_feeds(prev: Seq<NeuronModel>, n: nat) -> bool {
    forall|i: int| 0 <= i < prev.len() ==> (#[trigger] prev[i]).weights.len() == n
}

/// The two networks have the same layers of the same sizes, and each neuron has as many weights
/// in one as in the other.
pub open spec fn spec_same_shape(a: Seq<Seq<NeuronModel>>, b: Seq<Seq<NeuronModel>>) -> bool {
    &&& a.len() == b.len()
    &&& forall|l: int| 0 <= l < a.len() ==> (#[trigger] a[l]).len() == b[l].len()
    &&& forall|l: int, i: int|
        0 <= l < a.len() && 0 <= i < a[l].len() ==> (#[trigger] a[l][i]).weights.len()
            == b[l][i].weights.len()
}

/// The two networks have the same layers of the same sizes, and each neuron has the same bias
/// and the same weights in both: they differ in activations at most.
pub open spec fn spec_same_parameters(a: Seq<Seq<NeuronModel>>, b: Seq<Seq<NeuronModel>>) -> bool {
    &&& a.len() == b.len()
    &&& forall|l: int| 0 <= l < a.len() ==> (#[trigger] a[l]).len() == b[l].len()
    &&& forall|l: int, i: int|
        0 <= l < a.len() && 0 <= i < a[l].len() ==> (#[trigger] a[l][i]).bias == b[l][i].bias
            && a[l][i].weights == b[l][i].weights
}

impl NeuralNetwork {
    /// Layer `i` of the network, as mathematical values.
    pub open spec fn spec_layer(&self, i: int) -> Seq<NeuronModel> {
        if i == 0 {
            self.input.deep_view()
        } else if i == self.hidden@.len() + 1 {
            self.output.deep_view()
        } else {
            self.hidden@[i - 1].deep_view()
        }
    }
}

impl View for NeuralNetwork {
    type V = Seq<Seq<NeuronModel>>;

    /// The network as the sequence of its layers, input layer first and output layer last.
    open spec fn view(&self) -> Seq<Seq<NeuronModel>> {
        Seq::new(self.hidden@.len() + 2, |i: int| self.spec_layer(i))
    }
}

impl Clone for NeuralNetwork {
    fn clone(&self) -> (r: Self)
        ensures
            r@ == self@,
    {
        let r = NeuralNetwork {
            input: clone_layer(&self.input),
            hidden: clone_layers(&self.hidden),
            output: clone_layer(&self.output),
        };
        assert(r@ =~= self@) by {
            assert(r.hidden.deep_view().len() == self.hidden.deep_view().len());
            assert forall|i: int| 0 <= i < self.hidden@.len() implies r.hidden@[i].deep_view()
                == self.hidden@[i].deep_view() by {
                assert(r.hidden.deep_view()[i] == self.hidden.deep_view()[i]);
            }
        }
        r
    }
}

/// The neuron at rest: activation and bias zero, no connections.
pub open spec fn spec_resting() -> NeuronModel {
    NeuronModel { inner: 0, bias: 0, weights: Seq::empty() }
}

/// A layer of `n` neurons at rest.
pub open spec fn spec_resting_layer(n: nat) -> Seq<NeuronModel> {
    Seq::new(n, |i: int| spec_resting())
}

/// The network that [`NeuralNetwork::new`] builds: `input_num` input neurons, `count` hidden
/// layers of `width` neurons each, `output_num` output neurons, all at rest.
pub open spec fn spec_fresh(input_num: nat, count: nat, width: nat, output_num: nat) -> Seq<
    Seq<NeuronModel>,
> {
    Seq::new(
        count + 2,
        |l: int|
            if l == 0 {
                spec_resting_layer(input_num)
            } else if l == count + 1 {
                spec_resting_layer(output_num)
            } else {
                spec_resting_layer(width)
            },
    )
}

/// A copy of a layer.
pub fn clone_layer(layer: &Vec<Neuron>) -> (r: Vec<Neuron>)
    ensures
        r.deep_view() == layer.deep_view(),
{
    let mut r: Vec<Neuron> = Vec::new();
    let mut i: usize = 0;
    while i < layer.len()
        invariant
            i <= layer.len(),
            r.len() == i,
            forall|k: int| 0 <= k < i ==> r[k]@ == layer[k]@,
        decreases layer.len() - i,
    {
        r.push(layer[i].clone());
        i += 1;
    }
    assert(r.deep_view() =~= layer.deep_view());
    r
}

/// A copy of a run of layers.
pub fn clone_layers(layers: &Vec<Vec<Neuron>>) -> (r: Vec<Vec<Neuron>>)
    ensures
        r.deep_view() == layers.deep_view(),
{
    let mut r: Vec<Vec<Neuron>> = Vec::new();
    let mut i: usize = 0;
    while i < layers.len()
        invariant
            i <= layers.len(),
            r.len() == i,
            forall|k: int| 0 <= k < i ==> r[k].deep_view() == layers[k].deep_view(),
        decreases layers.len() - i,
    {
        r.push(clone_layer(&layers[i]));
        i += 1;
    }
    assert(r.deep_view() =~= layers.deep_view());
    r
}

/// A layer of `n` neurons at rest.
fn resting_layer(n: usize) -> (r: Vec<Neuron>)
    ensures
        r.deep_view() == spec_resting_layer(n as nat),
{
    let mut r: Vec<Neuron> = Vec::new();
    let mut i: usize = 0;
    while i < n
        invariant
            i <= n,
            r.len() == i,
            forall|k: int| 0 <= k < i ==> r[k]@ == spec_resting(),
        decreases n - i,
    {
        r.push(Neuron::new());
        i += 1;
    }
    assert(r.deep_view() =~= spec_resting_layer(n as nat));
    r
}

/// The network that [`NeuralNetwork::from_layers`] builds from a list of layers.
pub open spec fn spec_from_layers(layers: Seq<Seq<NeuronModel>>) -> Seq<Seq<NeuronModel>> {
    if layers.len() >= 2 {
        layers
    } else if layers.len() == 1 {
        seq![layers[0], layers[0]]
    } else {
        seq![Seq::empty(), Seq::empty()]
    }
}

/// Whether every neuron of the layer has `n` weights.
fn feeds(layer: &Vec<Neuron>, n: usize) -> (r: bool)
    ensures
        r == spec_feeds(layer.deep_view(), n as nat),
{
    let mut i: usize = 0;
    while i < layer.len()
        invariant
            i <= layer.len(),
            forall|k: int| 0 <= k < i ==> (#[trigger] layer.deep_view()[k]).weights.len() == n,
        decreases layer.len() - i,
    {
        if layer[i].weights.len() != n {
            assert(layer.deep_view()[i as int].weights.len() != n);
            return false;
        }
        i += 1;
    }
    true
}

/// A layer that does not feed the next one shows that the network is not wired.
proof fn lemma_not_wired(net: Seq<Seq<NeuronModel>>, l: int)
    requires
        0 <= l < net.len() - 1,
        !spec_feeds(net[l], net[l + 1].len()),
    ensures
        !spec_wired(net),
{
    if spec_wired(net) {
        assert forall|i: int| 0 <= i < net[l].len() implies (#[trigger] net[l][i]).weights.len()
            == net[l + 1].len() by {}
    }
}

impl NeuralNetwork {
    /// A network of neurons at rest: `input_num` input neurons, `hidden.0` hidden layers of
    /// `hidden.1` neurons each, and `output_num` output neurons. No neuron has connections yet.
    pub fn new(input_num: usize, hidden: (usize, usize), output_num: usize) -> (r: NeuralNetwork)
        ensures
            r@ == spec_fresh(input_num as nat, hidden.0 as nat, hidden.1 as nat, output_num as nat),
    {
        let mut layers: Vec<Vec<Neuron>> = Vec::new();
        let mut l: usize = 0;
        while l < hidden.0
            invariant
                l <= hidden.0,
                layers.len() == l,
                forall|k: int| 0 <= k < l ==> layers[k].deep_view() == spec_resting_layer(hidden.1 as nat),
            decreases hidden.0 - l,
        {
            layers.push(resting_layer(hidden.1));
            l += 1;
        }
        let r = NeuralNetwork {
            input: resting_layer(input_num),
            hidden: layers,
            output: resting_layer(output_num),
        };
        assert(r@ =~= spec_fresh(
            input_num as nat,
            hidden.0 as nat,
            hidden.1 as nat,
            output_num as nat,
        ));
        r
    }

    /// The network whose layers are `layers`: the first is the input layer, the last the output
    /// layer, and those between them the hidden layers. A single layer is both the input and the
    /// output layer; with no layer at all both are empty.
    pub fn from_layers(layers: Vec<Vec<Neuron>>) -> (r: NeuralNetwork)
        ensures
            r@ == spec_from_layers(layers.deep_view()),
    {
        let mut layers = layers;
        let ghost given = layers.deep_view();
        let ghost rows = layers@;
        let n: usize = layers.len();
        if n == 0 {
            let r = NeuralNetwork { input: Vec::new(), hidden: Vec::new(), output: Vec::new() };
            assert(r@ =~~= spec_from_layers(given));
            r
        } else if n == 1 {
            let only = layers.remove(0);
            assert(only.deep_view() == given[0]);
            let r = NeuralNetwork { input: clone_layer(&only), hidden: Vec::new(), output: only };
            assert(r@ =~= spec_from_layers(given));
            r
        } else {
            let output = layers.remove(n - 1);
            assert(output.deep_view() == given[n - 1]);
            let input = layers.remove(0);
            assert(input.deep_view() == given[0]);
            let r = NeuralNetwork { input, hidden: layers, output };
            assert(r@ =~= spec_from_layers(given)) by {
                assert(r.hidden@ =~= rows.subrange(1, n - 1));
                assert forall|i: int| 0 < i < n - 1 implies r@[i] == given[i] by {
                    assert(r.hidden@[i - 1] == rows[i]);
                    assert(given[i] == rows[i].deep_view());
                }
            }
            r
        }
    }

    /// Whether every neuron of every layer but the last has one weight per neuron of the next
    /// layer.
    pub fn is_wired(&self) -> (r: bool)
        ensures
            r == spec_wired(self@),
    {
        let count: usize = self.hidden.len();
        let first: usize = if count == 0 {
            self.output.len()
        } else {
            self.hidden[0].len()
        };
        if !feeds(&self.input, first) {
            proof {
                lemma_not_wired(self@, 0);
            }
            return false;
        }
        let mut h: usize = 0;
        while h < count
            invariant
                h <= count,
                count == self.hidden.len(),
                forall|l: int| 0 <= l <= h ==> spec_feeds(#[trigger] self@[l], self@[l + 1].len()),
            decreases count - h,
        {
            let next: usize = if h + 1 == count {
                self.output.len()
            } else {
                self.hidden[h + 1].len()
            };
            assert(self.hidden@[h as int].deep_view() == self@[h + 1]);
            assert(next == self@[h + 2].len());
            if !feeds(&self.hidden[h], next) {
                proof {
                    lemma_not_wired(self@, h + 1);
                }
                return false;
            }
            h += 1;
        }
        assert forall|l: int, i: int| 0 <= l < self@.len() - 1 && 0 <= i < self@[l].len() implies (
        #[trigger] self@[l][i]).weights.len() == self@[l + 1].len() by {
            assert(spec_feeds(self@[l], self@[l + 1].len()));
        }
        true
    }

    /// Layer `index`, or `None` where the network has no such layer.
    pub fn get_layer(&self, index: usize) -> (r: Option<&Vec<Neuron>>)
        ensures
            match r {
                Some(layer) => index < self@.len() && layer.deep_view() == self@[index as int],
                None => index >= self@.len(),
            },
    {
        if index == 0 {
            Some(&self.input)
        } else if index - 1 < self.hidden.len() {
            Some(&self.hidden[index - 1])
        } else if index - 1 == self.hidden.len() {
            Some(&self.output)
        } else {
            None
        }
    }

    /// Layer `index` for writing, or `None` where the network has no such layer. What is written
    /// to the layer is the only change to the network.
    pub fn get_layer_mut(&mut self, index: usize) -> (r: Option<&mut Vec<Neuron>>)
        ensures
            match r {
                Some(layer) => index < old(self)@.len() && layer.deep_view() == old(self)@[index as int]
                    && final(self)@ == old(self)@.update(index as int, final(layer).deep_view()),
                None => index >= old(self)@.len() && final(self)@ == old(self)@,
            },
    {
        if index == 0 {
            Some(&mut self.input)
        } else if index - 1 < self.hidden.len() {
            Some(&mut self.hidden[index - 1])
        } else if index - 1 == self.hidden.len() {
            Some(&mut self.output)
        } else {
            None
        }
    }
}

/// A cursor over the layers of a network of its own, which can be walked forwards with
/// [`NNIntoIterator::next`] and backwards with [`NNIntoIterator::prev`].
#[derive(Debug, PartialEq, Eq)]
pub struct NNIntoIterator {
    /// The network that the cursor walks.
    pub network: NeuralNetwork,
    /// Going forwards, the index of the layer that comes next. Going backwards, two more than
    /// the index of the layer that comes next.
    pub index: usize,
}

impl NeuralNetwork {
    /// A cursor that owns this network and stands before its first layer.
    pub fn into_iter(self) -> (r: NNIntoIterator)
        ensures
            r.layers() == self@,
            r.index == 0,
    {
        NNIntoIterator { network: self, index: 0 }
    }
}

impl NNIntoIterator {
    /// The layers of the network that the cursor owns.
    pub open spec fn layers(&self) -> Seq<Seq<NeuronModel>> {
        self.network@
    }

    /// A cursor that owns a copy of the network and stands before its first layer.
    pub fn new(network: &NeuralNetwork) -> (r: NNIntoIterator)
        ensures
            r.layers() == network@,
            r.index == 0,
    {
        NNIntoIterator { network: network.clone(), index: 0 }
    }

    /// A copy of the layer at the cursor, or `None` past the last layer. The cursor moves one
    /// layer on either way.
    pub fn next(&mut self) -> (r: Option<Vec<Neuron>>)
        requires
            old(self).index < usize::MAX,
        ensures
            final(self).layers() == old(self).layers(),
            final(self).index == old(self).index + 1,
            match r {
                Some(layer) => old(self).index < old(self).layers().len() && layer.deep_view()
                    == old(self).layers()[old(self).index as int],
                None => old(self).index >= old(self).layers().len(),
            },
    {
        let r = self.get(self.index);
        self.index += 1;
        r
    }

    /// A copy of layer `index`, or `None` where the network has no such layer.
    pub fn get(&self, index: usize) -> (r: Option<Vec<Neuron>>)
        ensures
            match r {
                Some(layer) => index < self.layers().len() && layer.deep_view()
                    == self.layers()[index as int],
                None => index >= self.layers().len(),
            },
    {
        match self.network.get_layer(index) {
            Some(layer) => Some(clone_layer(layer)),
            None => None,
        }
    }

    /// A cursor over a copy of the network that stands behind its last layer, ready to be walked
    /// backwards.
    pub fn prepare_back_iteration(&self) -> (r: Self)
        requires
            self.layers().len() + 1 <= usize::MAX,
        ensures
            r.layers() == self.layers(),
            r.index == self.layers().len() + 1,
    {
        NNIntoIterator { network: self.network.clone(), index: self.network.hidden.len() + 3 }
    }

    /// Steps one layer back and gives a copy of the layer that the cursor has passed, or stays
    /// and gives `None` where the cursor stands before the first layer.
    pub fn prev(&mut self) -> (r: Option<Vec<Neuron>>)
        requires
            old(self).index >= 1,
        ensures
            final(self).layers() == old(self).layers(),
            final(self).index == if old(self).index == 1 {
                1
            } else {
                old(self).index - 1
            },
            match r {
                Some(layer) => 2 <= old(self).index < old(self).layers().len() + 2
                    && layer.deep_view() == old(self).layers()[old(self).index - 2],
                None => old(self).index == 1 || old(self).index >= old(self).layers().len() + 2,
            },
    {
        if self.index - 1 == 0 {
            None
        } else {
            self.index -= 1;
            self.get(self.index - 1)
        }
    }

    /// The number of layers.
    pub fn len(&self) -> (r: usize)
        requires
            self.layers().len() <= usize::MAX,
        ensures
            r == self.layers().len(),
    {
        self.network.hidden.len() + 2
    }

    /// The network that the cursor owns.
    pub fn restore(self) -> (r: NeuralNetwork)
        ensures
            r@ == self.layers(),
    {
        self.network
    }
}

} // verus!
