//! A small feedforward neural network engine: layers of neurons, a forward pass, a cost and a
//! backpropagation step.
//!
//! Scalars are IEEE-754 single-precision numbers held as their bit patterns. The engine decides
//! which scalars meet in which operation and in which order; the operations themselves are asked
//! of an arithmetic unit that the caller hands in, a function from [`Op`] to the bits of the
//! answer.
//!
//! Every contract is stated over the function that the unit computes: for each function `f`
//! whose value every answer of the unit is, the network after a call is the one that the
//! matching `spec_` function gives for `f`. What does not depend on arithmetic, such as the
//! shape of the network or which call fails, is stated outright.

pub mod arithmetic;
pub mod calculate_inners;
pub mod cost;
pub mod network;
pub mod network_init;
pub mod network_utils;
pub mod neuron;
pub mod persist;
pub mod train;

pub use arithmetic::{is_positive, leaky_relu, leaky_slope, negate, sigmoid, Op};
pub use calculate_inners::{calculate_all_inners, calculate_inner, propagate};
pub use cost::mean_squared_error;
pub use network::{NNIntoIterator, NeuralNetwork, ShapeError};
pub use network_init::{initialize_weights, random_weights};
pub use network_utils::{get_layer, training_data_from_items, TrainingData};
pub use neuron::Neuron;
pub use persist::{
    bytes_or_error, from_plain, restore, serialize, EncodeError, RestoreError,
};
pub use train::{scalars, train_example, train_step};
