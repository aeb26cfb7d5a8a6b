use neural_network::{
    initialize_weights, mean_squared_error, propagate, scalars, train_example, train_step,
    NeuralNetwork, Neuron, Op, ShapeError, TrainingData,
};
use std::cell::Cell;

fn bits(x: f32) -> u32 {
    x.to_bits()
}

fn float(x: u32) -> f32 {
    f32::from_bits(x)
}

fn float_unit(op: Op) -> u32 {
    match op {
        Op::Add(a, b) => (f32::from_bits(a) + f32::from_bits(b)).to_bits(),
        Op::Sub(a, b) => (f32::from_bits(a) - f32::from_bits(b)).to_bits(),
        Op::Mul(a, b) => (f32::from_bits(a) * f32::from_bits(b)).to_bits(),
        Op::Div(a, b) => (f32::from_bits(a) / f32::from_bits(b)).to_bits(),
        Op::Exp(a) => f32::from_bits(a).exp().to_bits(),
        Op::FromCount(n) => (n as f32).to_bits(),
    }
}

fn neuron(inner: f32, bias: f32, weights: &[f32]) -> Neuron {
    Neuron { inner: bits(inner), bias: bits(bias), weights: weights.iter().map(|w| bits(*w)).collect() }
}

fn words(values: &[f32]) -> Vec<u32> {
    values.iter().map(|v| bits(*v)).collect()
}

fn seeded(seed: u32, input: usize, hidden: (usize, usize), output: usize) -> NeuralNetwork {
    let state = Cell::new(seed);
    let source = || {
        state.set(state.get().wrapping_mul(1664525).wrapping_add(1013904223));
        bits((state.get() >> 8) as f32 / 16777216.0 * 1.2 - 0.6)
    };
    initialize_weights(&NeuralNetwork::new(input, hidden, output), &source)
}

fn layers_of(net: &NeuralNetwork) -> Vec<Vec<Neuron>> {
    let mut layers = vec![net.input.clone()];
    layers.extend(net.hidden.iter().cloned());
    layers.push(net.output.clone());
    layers
}

fn sigmoid(x: f32) -> f32 {
    1.0 / (1.0 + (-x).exp())
}

/// The training step written out on floats, layer by layer.
fn step_on_floats(net: &NeuralNetwork, input: &[f32], target: &[f32], rate: f32) -> Vec<Vec<Neuron>> {
    let mut layers = layers_of(net);
    let last = layers.len() - 1;
    for (n, x) in layers[0].iter_mut().zip(input) {
        n.inner = bits(*x);
    }
    for l in 1..=last {
        for j in 0..layers[l].len() {
            let mut sum = 0.0f32;
            for p in layers[l - 1].iter() {
                sum = sum + float(p.inner) * float(p.weights[j]);
            }
            let raw = sum + float(layers[l][j].bias);
            let a = if l == last {
                sigmoid(raw)
            } else if raw > 0.0 {
                raw
            } else {
                0.01 * raw
            };
            layers[l][j].inner = bits(a);
        }
    }
    let mut deltas: Vec<Vec<f32>> = vec![vec![]; layers.len()];
    deltas[last] = layers[last]
        .iter()
        .zip(target)
        .map(|(n, t)| {
            let a = float(n.inner);
            (a - t) * a * (1.0 - a)
        })
        .collect();
    for l in (1..last).rev() {
        let mut row = vec![];
        for n in layers[l].iter() {
            let mut sum = 0.0f32;
            for (d, w) in deltas[l + 1].iter().zip(n.weights.iter()) {
                sum = sum + d * float(*w);
            }
            let slope = if float(n.inner) > 0.0 { 1.0 } else { 0.01 };
            row.push(sum * slope);
        }
        deltas[l] = row;
    }
    for l in 0..layers.len() {
        for i in 0..layers[l].len() {
            if l < last {
                let a = float(layers[l][i].inner);
                for j in 0..layers[l][i].weights.len() {
                    let w = float(layers[l][i].weights[j]);
                    layers[l][i].weights[j] = bits(w - rate * deltas[l + 1][j] * a);
                }
            }
            if l > 0 {
                let b = float(layers[l][i].bias);
                layers[l][i].bias = bits(b - rate * deltas[l][i]);
            }
        }
    }
    layers
}

#[test]
fn one_step_on_a_single_connection() {
    let mut net = NeuralNetwork {
        input: vec![neuron(0.0, 0.0, &[0.5])],
        hidden: vec![],
        output: vec![neuron(0.0, 0.0, &[])],
    };
    assert_eq!(train_step(&mut net, &words(&[1.0]), &words(&[1.0]), bits(0.1), &float_unit), Ok(()));
    let a = sigmoid(0.0f32 + 1.0 * 0.5 + 0.0);
    let delta = (a - 1.0) * a * (1.0 - a);
    assert!(delta < 0.0);
    assert_eq!(net.input[0], neuron(1.0, 0.0, &[0.5 - 0.1 * delta * 1.0]));
    assert_eq!(net.output[0], neuron(a, 0.0 - 0.1 * delta, &[]));
    assert!(float(net.input[0].weights[0]) > 0.5);
    assert!(float(net.output[0].bias) > 0.0);
}

#[test]
fn one_step_through_a_hidden_neuron() {
    let mut net = NeuralNetwork {
        input: vec![neuron(0.0, 0.0, &[0.5])],
        hidden: vec![vec![neuron(0.0, 0.25, &[-2.0])]],
        output: vec![neuron(0.0, 0.5, &[])],
    };
    train_step(&mut net, &words(&[2.0]), &words(&[0.0]), bits(0.5), &float_unit).unwrap();
    let h = 0.0f32 + 2.0 * 0.5 + 0.25;
    let a = sigmoid(0.0f32 + h * -2.0 + 0.5);
    let delta_out = (a - 0.0) * a * (1.0 - a);
    let delta_hidden = (0.0f32 + delta_out * -2.0) * 1.0;
    assert_eq!(net.output[0], neuron(a, 0.5 - 0.5 * delta_out, &[]));
    assert_eq!(net.hidden[0][0], neuron(h, 0.25 - 0.5 * delta_hidden, &[-2.0 - 0.5 * delta_out * h]));
    assert_eq!(net.input[0], neuron(2.0, 0.0, &[0.5 - 0.5 * delta_hidden * 2.0]));
}

#[test]
fn a_resting_hidden_neuron_learns_with_the_small_slope() {
    let mut net = NeuralNetwork {
        input: vec![neuron(0.0, 0.0, &[-1.0])],
        hidden: vec![vec![neuron(0.0, 0.0, &[3.0])]],
        output: vec![neuron(0.0, 0.0, &[])],
    };
    train_step(&mut net, &words(&[1.0]), &words(&[1.0]), bits(1.0), &float_unit).unwrap();
    let h = 0.01f32 * (0.0f32 + 1.0 * -1.0 + 0.0);
    let a = sigmoid(0.0f32 + h * 3.0 + 0.0);
    let delta_out = (a - 1.0) * a * (1.0 - a);
    let delta_hidden = (0.0f32 + delta_out * 3.0) * 0.01;
    assert_eq!(net.hidden[0][0], neuron(h, 0.0 - 1.0 * delta_hidden, &[3.0 - 1.0 * delta_out * h]));
    assert_eq!(net.input[0], neuron(1.0, 0.0, &[-1.0 - 1.0 * delta_hidden * 1.0]));
}

#[test]
fn a_step_is_the_step_written_out_on_floats() {
    for seed in 1..=25u32 {
        let mut net = seeded(seed, 3, (2, 4), 2);
        let input = [0.5f32, -1.0, 0.25 * seed as f32];
        let target = [1.0f32, 0.0];
        let expected = step_on_floats(&net, &input, &target, 0.1);
        train_step(&mut net, &words(&input), &words(&target), bits(0.1), &float_unit).unwrap();
        assert_eq!(layers_of(&net), expected, "seed {}", seed);
    }
}

#[test]
fn a_step_without_hidden_layers_is_the_step_written_out_on_floats() {
    let mut net = seeded(77, 4, (0, 0), 3);
    let input = [0.5f32, -1.0, 2.0, 0.0];
    let target = [1.0f32, 0.0, 1.0];
    let expected = step_on_floats(&net, &input, &target, 0.05);
    train_step(&mut net, &words(&input), &words(&target), bits(0.05), &float_unit).unwrap();
    assert_eq!(layers_of(&net), expected);
}

#[test]
fn the_input_layer_keeps_its_biases_and_the_output_layer_its_weights() {
    let mut net = seeded(5, 2, (1, 3), 2);
    net.input[0].bias = bits(0.75);
    net.output[1].weights = words(&[4.0, 5.0]);
    train_step(&mut net, &words(&[1.0, 1.0]), &words(&[0.0, 1.0]), bits(0.1), &float_unit).unwrap();
    assert_eq!(net.input[0].bias, bits(0.75));
    assert_eq!(net.input[1].bias, bits(0.0));
    assert_eq!(net.output[1].weights, words(&[4.0, 5.0]));
    assert_ne!(net.output[1].bias, bits(0.0));
}

#[test]
fn deltas_are_those_of_the_weights_before_the_step() {
    let mut net = seeded(9, 2, (2, 2), 1);
    let before = net.clone();
    let input = [1.0f32, -0.5];
    let target = [0.0f32];
    train_step(&mut net, &words(&input), &words(&target), bits(10.0), &float_unit).unwrap();
    assert_eq!(layers_of(&net), step_on_floats(&before, &input, &target, 10.0));
}

#[test]
fn a_step_keeps_the_shape() {
    for seed in 1..=10u32 {
        let mut net = seeded(seed, 3, (seed as usize % 4, 2 + seed as usize), 2);
        let before = net.clone();
        assert!(net.is_wired());
        train_step(&mut net, &words(&[1.0, 0.0, 1.0]), &words(&[0.0, 1.0]), bits(0.1), &float_unit)
            .unwrap();
        assert!(net.is_wired());
        let (now, then) = (layers_of(&net), layers_of(&before));
        assert_eq!(now.len(), then.len());
        for (a, b) in now.iter().zip(then.iter()) {
            assert_eq!(a.len(), b.len());
            for (n, m) in a.iter().zip(b.iter()) {
                assert_eq!(n.weights.len(), m.weights.len());
            }
        }
    }
}

#[test]
fn a_small_step_lowers_the_cost() {
    let input = words(&[1.0, 0.0, 1.0, 0.5]);
    let target = words(&[0.0, 1.0]);
    let mut lowered = 0;
    for seed in 1..=40u32 {
        let mut net = seeded(seed, 4, (2, 5), 2);
        propagate(&mut net, &input, &float_unit).unwrap();
        let before = float(mean_squared_error(&target, &net, &float_unit).unwrap());
        train_step(&mut net, &input, &target, bits(1.0e-3), &float_unit).unwrap();
        propagate(&mut net, &input, &float_unit).unwrap();
        let after = float(mean_squared_error(&target, &net, &float_unit).unwrap());
        assert!(after <= before, "seed {}: {} then {}", seed, before, after);
        if after < before {
            lowered += 1;
        }
    }
    assert!(lowered >= 38, "lowered {} of 40", lowered);
}

#[test]
fn repeated_steps_learn_the_example() {
    let mut net = seeded(3, 2, (1, 3), 1);
    let input = words(&[1.0, 0.0]);
    let target = words(&[1.0]);
    propagate(&mut net, &input, &float_unit).unwrap();
    let before = float(mean_squared_error(&target, &net, &float_unit).unwrap());
    for _ in 0..500 {
        train_step(&mut net, &input, &target, bits(0.5), &float_unit).unwrap();
    }
    propagate(&mut net, &input, &float_unit).unwrap();
    let after = float(mean_squared_error(&target, &net, &float_unit).unwrap());
    assert!(after < before / 10.0, "{} then {}", before, after);
}

#[test]
fn train_step_refuses_an_input_of_the_wrong_length() {
    let mut net = seeded(1, 2, (1, 3), 1);
    let before = net.clone();
    assert_eq!(
        train_step(&mut net, &words(&[1.0, 0.0, 1.0]), &words(&[1.0]), bits(0.1), &float_unit),
        Err(ShapeError { expected: 2, found: 3 })
    );
    assert_eq!(net, before);
}

#[test]
fn train_step_refuses_a_target_of_the_wrong_length() {
    let mut net = seeded(1, 2, (1, 3), 1);
    let before = net.clone();
    assert_eq!(
        train_step(&mut net, &words(&[1.0, 0.0]), &words(&[1.0, 0.0]), bits(0.1), &float_unit),
        Err(ShapeError { expected: 1, found: 2 })
    );
    assert_eq!(net, before);
    assert_eq!(
        train_step(&mut net, &words(&[1.0, 0.0]), &words(&[]), bits(0.1), &float_unit),
        Err(ShapeError { expected: 1, found: 0 })
    );
    assert_eq!(net, before);
}

#[test]
fn train_step_names_the_input_when_both_lengths_are_wrong() {
    let mut net = seeded(1, 2, (1, 3), 1);
    let before = net.clone();
    assert_eq!(
        train_step(&mut net, &words(&[1.0]), &words(&[1.0, 0.0, 0.5]), bits(0.1), &float_unit),
        Err(ShapeError { expected: 2, found: 1 })
    );
    assert_eq!(net, before);
}

#[test]
fn scalars_are_the_floats_nearest_to_the_numbers() {
    assert_eq!(scalars(&vec![0, 1, 2, 255], &float_unit), words(&[0.0, 1.0, 2.0, 255.0]));
    assert_eq!(scalars(&vec![], &float_unit), Vec::<u32>::new());
    let unit = |op: Op| match op {
        Op::FromCount(n) => n as u32 * 2,
        _ => 0,
    };
    assert_eq!(scalars(&vec![3, 200], &unit), vec![6, 400]);
}

#[test]
fn train_example_takes_data_as_input_and_label_as_target() {
    let start = seeded(11, 3, (1, 2), 2);
    let example = TrainingData::new(&vec![0, 1], &vec![2, 0, 7]);
    let mut by_example = start.clone();
    assert_eq!(train_example(&mut by_example, &example, bits(0.1), &float_unit), Ok(()));
    let mut by_step = start.clone();
    train_step(&mut by_step, &words(&[2.0, 0.0, 7.0]), &words(&[0.0, 1.0]), bits(0.1), &float_unit)
        .unwrap();
    assert_eq!(by_example, by_step);
    assert_ne!(by_example, start);
}

#[test]
fn train_example_refuses_examples_of_the_wrong_shape() {
    let start = seeded(11, 3, (1, 2), 2);
    let mut net = start.clone();
    let short = TrainingData::new(&vec![0, 1], &vec![2, 0]);
    assert_eq!(
        train_example(&mut net, &short, bits(0.1), &float_unit),
        Err(ShapeError { expected: 3, found: 2 })
    );
    let long = TrainingData::new(&vec![0, 1, 1], &vec![2, 0, 1]);
    assert_eq!(
        train_example(&mut net, &long, bits(0.1), &float_unit),
        Err(ShapeError { expected: 2, found: 3 })
    );
    assert_eq!(net, start);
}
