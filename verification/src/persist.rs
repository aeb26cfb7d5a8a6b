//! Persistence: a network as bytes, and back.
//!
//! The bytes are those of bincode for the network in plain form: the input layer, the hidden
//! layers and the output layer, each neuron as its activation, its bias and its weights.

use crate::network::{spec_wired, NeuralNetwork};
use crate::neuron::{Neuron, NeuronModel};
use vstd::prelude::*;

verus! {

/// The error type of bincode, which the library only hands on.
#[verifier::external_type_specification]
#[verifier::external_body]
pub struct ExErrorKind(bincode::ErrorKind);

/// What `bincode::serialize` gives for a network in plain form: bytes, or `None` for an error.
pub uninterp spec fn bincode_bytes(
    input: Seq<(u32, u32, Seq<u32>)>,
    hidden: Seq<Seq<(u32, u32, Seq<u32>)>>,
    output: Seq<(u32, u32, Seq<u32>)>,
) -> Option<Seq<u8>>;

/// The network in plain form that `bincode::deserialize` reads from the bytes, or `None` where
/// it reads none.
pub uninterp spec fn bincode_value(bytes: Seq<u8>) -> Option<
    (Seq<(u32, u32, Seq<u32>)>, Seq<Seq<(u32, u32, Seq<u32>)>>, Seq<(u32, u32, Seq<u32>)>),
>;

/// Why no bytes could be made of a network: bincode gave an error.
#[derive(Debug, Clone, Copy, PartialEq, Eq)]
pub struct EncodeError;

/// Why no network could be restored from bytes.
#[derive(Debug, Clone, Copy, PartialEq, Eq)]
pub enum RestoreError {
    /// The bytes do not hold a network.
    Decode,
    /// The bytes hold layers in which some neuron has not one weight per neuron of the next
    /// layer.
    Shape,
}

/// A neuron in plain form.
pub open spec fn spec_plain_neuron(n: NeuronModel) -> (u32, u32, Seq<u32>) {
    (n.inner, n.bias, n.weights)
}

/// A layer in plain form.
pub open spec fn spec_plain_layer(layer: Seq<NeuronModel>) -> Seq<(u32, u32, Seq<u32>)> {
    Seq::new(layer.len(), |i: int| spec_plain_neuron(layer[i]))
}

/// The hidden layers of a network, in plain form.
pub open spec fn spec_plain_hidden(net: Seq<Seq<NeuronModel>>) -> Seq<Seq<(u32, u32, Seq<u32>)>> {
    Seq::new((net.len() - 2) as nat, |h: int| spec_plain_layer(net[h + 1]))
}

/// The layer that a plain layer stands for.
pub open spec fn spec_layer_of(plain: Seq<(u32, u32, Seq<u32>)>) -> Seq<NeuronModel> {
    Seq::new(
        plain.len(),
        |i: int| NeuronModel { inner: plain[i].0, bias: plain[i].1, weights: plain[i].2 },
    )
}

/// The network that a plain input layer, plain hidden layers and a plain output layer stand for.
pub open spec fn spec_network_of(
    input: Seq<(u32, u32, Seq<u32>)>,
    hidden: Seq<Seq<(u32, u32, Seq<u32>)>>,
    output: Seq<(u32, u32, Seq<u32>)>,
) -> Seq<Seq<NeuronModel>> {
    Seq::new(
        hidden.len() + 2,
        |l: int|
            if l == 0 {
                spec_layer_of(input)
            } else if l == hidden.len() + 1 {
                spec_layer_of(output)
            } else {
                spec_layer_of(hidden[l - 1])
            },
    )
}

/// What bincode gives for a network: its bytes, or `None` where bincode gives an error.
pub open spec fn spec_serialize(net: Seq<Seq<NeuronModel>>) -> Option<Seq<u8>> {
    bincode_bytes(spec_plain_layer(net[0]), spec_plain_hidden(net), spec_plain_layer(net.last()))
}

/// Calls `bincode::serialize` on the three parts of a network in plain form. What it gives,
/// bytes or an error, is what [`bincode_bytes`] names for these parts; nothing is said of
/// when it gives an error.
#[verifier::external_body]
fn bincode_serialize(
    input: &Vec<(u32, u32, Vec<u32>)>,
    hidden: &Vec<Vec<(u32, u32, Vec<u32>)>>,
    output: &Vec<(u32, u32, Vec<u32>)>,
) -> (r: Result<Vec<u8>, Box<bincode::ErrorKind>>)
    ensures
        spec_written(r) == bincode_bytes(
            input.deep_view(),
            hidden.deep_view(),
            output.deep_view(),
        ),
{
    bincode::serialize(&(input, hidden, output))
}

/// What a call of `bincode::deserialize` has read: the parts as mathematical values, or `None`
/// where it gave an error.
pub open spec fn spec_read(
    r: Result<
        (Vec<(u32, u32, Vec<u32>)>, Vec<Vec<(u32, u32, Vec<u32>)>>, Vec<(u32, u32, Vec<u32>)>),
        Box<bincode::ErrorKind>,
    >,
) -> Option<
    (Seq<(u32, u32, Seq<u32>)>, Seq<Seq<(u32, u32, Seq<u32>)>>, Seq<(u32, u32, Seq<u32>)>),
> {
    match r {
        Ok(parts) => Some((parts.0.deep_view(), parts.1.deep_view(), parts.2.deep_view())),
        Err(_) => None,
    }
}

/// Calls `bincode::deserialize` for the three parts of a network in plain form. What it reads
/// is named [`bincode_value`]; and, as bincode promises of its pair of functions, from the
/// bytes that `bincode::serialize` gave for some parts it reads those parts.
#[verifier::external_body]
fn bincode_deserialize(bytes: &[u8]) -> (r: Result<
    (Vec<(u32, u32, Vec<u32>)>, Vec<Vec<(u32, u32, Vec<u32>)>>, Vec<(u32, u32, Vec<u32>)>),
    Box<bincode::ErrorKind>,
>)
    ensures
        spec_read(r) == bincode_value(bytes@),
        (forall|
            input: Seq<(u32, u32, Seq<u32>)>,
            hidden: Seq<Seq<(u32, u32, Seq<u32>)>>,
            output: Seq<(u32, u32, Seq<u32>)>,
        |
            Some(bytes@) == #[trigger] bincode_bytes(input, hidden, output) ==> spec_read(r)
                == Some((input, hidden, output))
        ),
{
    bincode::deserialize(bytes)
}

/// A layer in plain form.
fn plain_layer(layer: &Vec<Neuron>) -> (r: Vec<(u32, u32, Vec<u32>)>)
    ensures
        r.deep_view() == spec_plain_layer(layer.deep_view()),
{
    let mut r: Vec<(u32, u32, Vec<u32>)> = Vec::new();
    let mut i: usize = 0;
    while i < layer.len()
        invariant
            i <= layer.len(),
            r.len() == i,
            forall|k: int| 0 <= k < i ==> (#[trigger] r[k]).deep_view() == spec_plain_neuron(layer[k]@),
        decreases layer.len() - i,
    {
        r.push((layer[i].inner, layer[i].bias, layer[i].weights.clone()));
        i += 1;
    }
    assert(r.deep_view() =~= spec_plain_layer(layer.deep_view()));
    r
}

/// The layer that a plain layer stands for.
fn layer_of(plain: &Vec<(u32, u32, Vec<u32>)>) -> (r: Vec<Neuron>)
    ensures
        r.deep_view() == spec_layer_of(plain.deep_view()),
{
    let mut r: Vec<Neuron> = Vec::new();
    let mut i: usize = 0;
    while i < plain.len()
        invariant
            i <= plain.len(),
            r.len() == i,
            forall|k: int|
                0 <= k < i ==> (#[trigger] r[k])@ == (NeuronModel {
                    inner: plain[k].0,
                    bias: plain[k].1,
                    weights: plain[k].2@,
                }),
        decreases plain.len() - i,
    {
        r.push(Neuron { inner: plain[i].0, bias: plain[i].1, weights: plain[i].2.clone() });
        i += 1;
    }
    assert(r.deep_view() =~= spec_layer_of(plain.deep_view())) by {
        assert forall|k: int| 0 <= k < plain.len() implies plain.deep_view()[k] == (
            plain[k].0,
            plain[k].1,
            plain[k].2@,
        ) by {}
    }
    r
}

/// The bytes of the network, as bincode gives them for its plain form, or an error where
/// bincode gives one.
pub fn serialize(network: &NeuralNetwork) -> (r: Result<Vec<u8>, EncodeError>)
    ensures
        match spec_serialize(network@) {
            Some(bytes) => r matches Ok(written) && written@ == bytes,
            None => r == Err::<Vec<u8>, EncodeError>(EncodeError),
        },
{
    let input = plain_layer(&network.input);
    let output = plain_layer(&network.output);
    let mut hidden: Vec<Vec<(u32, u32, Vec<u32>)>> = Vec::new();
    let mut h: usize = 0;
    while h < network.hidden.len()
        invariant
            h <= network.hidden.len(),
            hidden.len() == h,
            forall|k: int|
                0 <= k < h ==> (#[trigger] hidden[k]).deep_view() == spec_plain_layer(
                    network.hidden[k].deep_view(),
                ),
        decreases network.hidden.len() - h,
    {
        hidden.push(plain_layer(&network.hidden[h]));
        h += 1;
    }
    assert(hidden.deep_view() =~= spec_plain_hidden(network@));
    bytes_or_error(bincode_serialize(&input, &hidden, &output))
}

/// What a call of `bincode::serialize` has given: the bytes as mathematical values, or `None`
/// where it gave an error.
pub open spec fn spec_written(r: Result<Vec<u8>, Box<bincode::ErrorKind>>) -> Option<Seq<u8>> {
    match r {
        Ok(bytes) => Some(bytes@),
        Err(_) => None,
    }
}

/// What [`serialize`] returns for an answer of bincode: the bytes where bincode gave bytes, and
/// an [`EncodeError`] where it gave an error, whichever error that was.
pub fn bytes_or_error(outcome: Result<Vec<u8>, Box<bincode::ErrorKind>>) -> (r: Result<
    Vec<u8>,
    EncodeError,
>)
    ensures
        match outcome {
            Ok(bytes) => r == Ok::<Vec<u8>, EncodeError>(bytes),
            Err(_) => r == Err::<Vec<u8>, EncodeError>(EncodeError),
        },
{
    match outcome {
        Ok(bytes) => Ok(bytes),
        Err(_) => Err(EncodeError),
    }
}

/// The network that the three plain parts stand for, where every neuron of every layer but the
/// last has one weight per neuron of the next layer; a shape error where not.
pub fn from_plain(
    input: &Vec<(u32, u32, Vec<u32>)>,
    hidden: &Vec<Vec<(u32, u32, Vec<u32>)>>,
    output: &Vec<(u32, u32, Vec<u32>)>,
) -> (r: Result<NeuralNetwork, RestoreError>)
    ensures
        match r {
            Ok(network) => {
                &&& network@ == spec_network_of(
                    input.deep_view(),
                    hidden.deep_view(),
                    output.deep_view(),
                )
                &&& spec_wired(network@)
            },
            Err(e) => e == RestoreError::Shape && !spec_wired(
                spec_network_of(input.deep_view(), hidden.deep_view(), output.deep_view()),
            ),
        },
{
    let mut layers: Vec<Vec<Neuron>> = Vec::new();
    let mut h: usize = 0;
    while h < hidden.len()
        invariant
            h <= hidden.len(),
            layers.len() == h,
            forall|k: int|
                0 <= k < h ==> (#[trigger] layers[k]).deep_view() == spec_layer_of(
                    hidden[k].deep_view(),
                ),
        decreases hidden.len() - h,
    {
        layers.push(layer_of(&hidden[h]));
        h += 1;
    }
    let network = NeuralNetwork { input: layer_of(input), hidden: layers, output: layer_of(output) };
    assert(network@ =~= spec_network_of(
        input.deep_view(),
        hidden.deep_view(),
        output.deep_view(),
    ));
    if network.is_wired() {
        Ok(network)
    } else {
        Err(RestoreError::Shape)
    }
}

/// A network is the one that its plain parts stand for.
pub proof fn lemma_plain_round_trip(net: Seq<Seq<NeuronModel>>)
    requires
        net.len() >= 2,
    ensures
        spec_network_of(spec_plain_layer(net[0]), spec_plain_hidden(net), spec_plain_layer(net.last()))
            == net,
{
    let back = spec_network_of(
        spec_plain_layer(net[0]),
        spec_plain_hidden(net),
        spec_plain_layer(net.last()),
    );
    assert(back.len() == net.len());
    assert forall|l: int| 0 <= l < net.len() implies back[l] == net[l] by {
        assert(back[l] =~= net[l]);
    }
    assert(back =~= net);
}

/// The network that the bytes hold. Fails with [`RestoreError::Decode`] where bincode reads no
/// network from them, and with [`RestoreError::Shape`] where it reads one in which some neuron
/// has not one weight per neuron of the next layer. From the bytes that [`serialize`] gave for
/// an initialized network, the result is that network.
pub fn restore(bytes: &[u8]) -> (r: Result<NeuralNetwork, RestoreError>)
    ensures
        match bincode_value(bytes@) {
            Some((input, hidden, output)) => if spec_wired(spec_network_of(input, hidden, output)) {
                r matches Ok(network) && network@ == spec_network_of(input, hidden, output)
            } else {
                r == Err::<NeuralNetwork, RestoreError>(RestoreError::Shape)
            },
            None => r == Err::<NeuralNetwork, RestoreError>(RestoreError::Decode),
        },
        forall|net: Seq<Seq<NeuronModel>>|
            net.len() >= 2 && spec_wired(net) && Some(bytes@) == #[trigger] spec_serialize(net)
                ==> (r matches Ok(network) && network@ == net),
{
    let r = match bincode_deserialize(bytes) {
        Ok(parts) => from_plain(&parts.0, &parts.1, &parts.2),
        Err(_) => Err(RestoreError::Decode),
    };
    proof {
        assert forall|net: Seq<Seq<NeuronModel>>|
            net.len() >= 2 && spec_wired(net) && Some(bytes@) == #[trigger] spec_serialize(
                net,
            ) implies (r matches Ok(network) && network@ == net) by {
            lemma_plain_round_trip(net);
        }
    }
    r
}

} // verus!
