use neural_network::{
    calculate_all_inners, calculate_inner, initialize_weights, mean_squared_error, propagate,
    random_weights, NeuralNetwork, Neuron, Op, ShapeError,
};
use std::cell::Cell;

fn bits(x: f32) -> u32 {
    x.to_bits()
}

fn float(x: u32) -> f32 {
    f32::from_bits(x)
}

fn float_unit(op: Op) -> u32 {
    match op {
        Op::Add(a, b) => (f32::from_bits(a) + f32::from_bits(b)).to_bits(),
        Op::Sub(a, b) => (f32::from_bits(a) - f32::from_bits(b)).to_bits(),
        Op::Mul(a, b) => (f32::from_bits(a) * f32::from_bits(b)).to_bits(),
        Op::Div(a, b) => (f32::from_bits(a) / f32::from_bits(b)).to_bits(),
        Op::Exp(a) => f32::from_bits(a).exp().to_bits(),
        Op::FromCount(n) => (n as f32).to_bits(),
    }
}

fn neuron(inner: f32, bias: f32, weights: &[f32]) -> Neuron {
    Neuron { inner: bits(inner), bias: bits(bias), weights: weights.iter().map(|w| bits(*w)).collect() }
}

fn half() -> u32 {
    bits(0.5)
}

/// Two inputs, one hidden layer of three, one output; every weight one half, every bias zero.
fn all_halves() -> NeuralNetwork {
    initialize_weights(&NeuralNetwork::new(2, (1, 3), 1), &half)
}

fn activations(layer: &Vec<Neuron>) -> Vec<f32> {
    layer.iter().map(|n| float(n.inner)).collect()
}

#[test]
fn random_weights_draws_each_weight_from_the_source() {
    let next = Cell::new(0u32);
    let source = || {
        next.set(next.get() + 1);
        next.get()
    };
    assert_eq!(random_weights(4, &source), vec![1, 2, 3, 4]);
    assert_eq!(random_weights(0, &source), Vec::<u32>::new());
    assert_eq!(random_weights(1, &source), vec![5]);
}

#[test]
fn initialize_weights_sizes_every_neuron_for_the_next_layer() {
    let net = initialize_weights(&NeuralNetwork::new(10, (2, 5), 2), &half);
    assert!(net.is_wired());
    for n in net.input.iter() {
        assert_eq!(n.weights, vec![half(); 5]);
    }
    for n in net.hidden[0].iter() {
        assert_eq!(n.weights, vec![half(); 5]);
    }
    for n in net.hidden[1].iter() {
        assert_eq!(n.weights, vec![half(); 2]);
    }
    for n in net.output.iter() {
        assert!(n.weights.is_empty());
    }
    assert_eq!(net.input.len(), 10);
    assert_eq!(net.hidden.len(), 2);
    assert_eq!(net.output.len(), 2);
}

#[test]
fn initialize_weights_gives_a_single_next_neuron_its_weight() {
    let net = all_halves();
    assert_eq!(net.input[0].weights.len(), 3);
    assert_eq!(net.hidden[0][0].weights, vec![half()]);
    assert_eq!(net.hidden[0][2].weights, vec![half()]);
    assert!(net.output[0].weights.is_empty());
}

#[test]
fn initialize_weights_draws_in_layer_and_neuron_order() {
    let next = Cell::new(0u32);
    let source = || {
        next.set(next.get() + 1);
        next.get()
    };
    let net = initialize_weights(&NeuralNetwork::new(2, (1, 2), 1), &source);
    assert_eq!(net.input[0].weights, vec![1, 2]);
    assert_eq!(net.input[1].weights, vec![3, 4]);
    assert_eq!(net.hidden[0][0].weights, vec![5]);
    assert_eq!(net.hidden[0][1].weights, vec![6]);
    assert_eq!(net.output[0].weights, Vec::<u32>::new());
    assert_eq!(next.get(), 6);
}

#[test]
fn initialize_weights_replaces_weights_and_keeps_the_rest() {
    let mut start = NeuralNetwork::new(2, (0, 0), 2);
    start.input[0] = neuron(1.0, 2.0, &[9.0, 9.0, 9.0, 9.0]);
    start.output[1] = neuron(3.0, 4.0, &[9.0]);
    let once = initialize_weights(&start, &half);
    assert_eq!(once.input[0], neuron(1.0, 2.0, &[0.5, 0.5]));
    assert_eq!(once.input[1], neuron(0.0, 0.0, &[0.5, 0.5]));
    assert_eq!(once.output[1], neuron(3.0, 4.0, &[]));
    let quarter = || bits(0.25);
    let twice = initialize_weights(&once, &quarter);
    assert_eq!(twice.input[0], neuron(1.0, 2.0, &[0.25, 0.25]));
    assert_eq!(twice.output[1], neuron(3.0, 4.0, &[]));
    assert_eq!(start.input[0], neuron(1.0, 2.0, &[9.0, 9.0, 9.0, 9.0]));
}

#[test]
fn forward_pass_through_a_network_of_halves() {
    let mut net = all_halves();
    let input = vec![bits(1.0), bits(0.0)];
    assert_eq!(propagate(&mut net, &input, &float_unit), Ok(()));
    assert_eq!(activations(&net.input), vec![1.0, 0.0]);
    assert_eq!(activations(&net.hidden[0]), vec![0.5, 0.5, 0.5]);
    let out = float(net.output[0].inner);
    assert_eq!(out, 1.0f32 / (1.0f32 + (-0.75f32).exp()));
    assert!((out - 0.6792).abs() < 1.0e-4);
    for j in 0..3 {
        assert_eq!(float(calculate_inner(&net, 1, j, &float_unit)), 0.5);
    }
    assert_eq!(float(calculate_inner(&net, 2, 0, &float_unit)), 0.75);
}

#[test]
fn forward_pass_keeps_weights_and_biases() {
    let mut net = all_halves();
    net.hidden[0][1].bias = bits(0.125);
    let before = net.clone();
    propagate(&mut net, &vec![bits(1.0), bits(0.0)], &float_unit).unwrap();
    for (after, before) in net.hidden[0].iter().zip(before.hidden[0].iter()) {
        assert_eq!(after.bias, before.bias);
        assert_eq!(after.weights, before.weights);
    }
    assert_eq!(net.input[0].weights, before.input[0].weights);
    assert_eq!(net.output[0].bias, before.output[0].bias);
    assert_eq!(activations(&net.hidden[0]), vec![0.5, 0.625, 0.5]);
}

#[test]
fn mean_squared_error_of_the_network_of_halves() {
    let mut net = all_halves();
    propagate(&mut net, &vec![bits(1.0), bits(0.0)], &float_unit).unwrap();
    let cost = float(mean_squared_error(&vec![bits(1.0)], &net, &float_unit).unwrap());
    let out = float(net.output[0].inner);
    assert_eq!(cost, (out - 1.0) * (out - 1.0) / 1.0);
    assert!((cost - 0.1030).abs() < 1.0e-3);
    assert!(cost >= 0.0);
}

#[test]
fn propagate_refuses_an_input_of_the_wrong_length() {
    let mut net = all_halves();
    let before = net.clone();
    let input = vec![bits(1.0), bits(0.0), bits(1.0)];
    assert_eq!(
        propagate(&mut net, &input, &float_unit),
        Err(ShapeError { expected: 2, found: 3 })
    );
    assert_eq!(net, before);
    assert_eq!(
        propagate(&mut net, &vec![bits(1.0)], &float_unit),
        Err(ShapeError { expected: 2, found: 1 })
    );
    assert_eq!(
        propagate(&mut net, &vec![], &float_unit),
        Err(ShapeError { expected: 2, found: 0 })
    );
    assert_eq!(net, before);
}

#[test]
fn propagate_twice_gives_the_same_bits() {
    let next = Cell::new(12345u32);
    let source = || {
        next.set(next.get().wrapping_mul(1664525).wrapping_add(1013904223));
        bits((next.get() >> 8) as f32 / 16777216.0 * 1.2 - 0.6)
    };
    let mut net = initialize_weights(&NeuralNetwork::new(4, (3, 5), 3), &source);
    let input = vec![bits(0.3), bits(-1.5), bits(2.0), bits(0.0)];
    propagate(&mut net, &input, &float_unit).unwrap();
    let first = net.clone();
    propagate(&mut net, &input, &float_unit).unwrap();
    assert_eq!(net, first);
    let mut other = first.clone();
    for n in other.hidden[1].iter_mut() {
        n.inner = bits(99.0);
    }
    other.output[0].inner = bits(-7.0);
    propagate(&mut other, &input, &float_unit).unwrap();
    assert_eq!(other, first);
}

#[test]
fn hidden_layers_leak_and_the_output_layer_squashes() {
    let mut net = NeuralNetwork {
        input: vec![neuron(0.0, 0.0, &[-2.0, 3.0])],
        hidden: vec![
            vec![neuron(0.0, 0.5, &[1.0, 1.0]), neuron(0.0, -1.0, &[2.0, -1.0])],
            vec![neuron(0.0, -10.0, &[1.0]), neuron(0.0, 0.25, &[-1.0])],
        ],
        output: vec![neuron(0.0, 0.5, &[])],
    };
    propagate(&mut net, &vec![bits(1.0)], &float_unit).unwrap();
    let h0 = 0.01f32 * (0.0f32 + 1.0 * -2.0 + 0.5);
    let h1 = 0.0f32 + 1.0 * 3.0 + -1.0;
    assert_eq!(activations(&net.hidden[0]), vec![h0, h1]);
    assert_eq!(h0, -0.015);
    assert_eq!(h1, 2.0);
    let g0 = 0.01f32 * (((0.0f32 + h0 * 1.0) + h1 * 2.0) + -10.0);
    let g1 = ((0.0f32 + h0 * 1.0) + h1 * -1.0) + 0.25;
    assert!(g1 < 0.0);
    let g1 = 0.01f32 * g1;
    assert_eq!(activations(&net.hidden[1]), vec![g0, g1]);
    let raw = ((0.0f32 + g0 * 1.0) + g1 * -1.0) + 0.5;
    assert_eq!(activations(&net.output), vec![1.0f32 / (1.0f32 + (-raw).exp())]);
}

#[test]
fn without_hidden_layers_the_output_reads_the_input() {
    let mut net = NeuralNetwork {
        input: vec![neuron(0.0, 0.0, &[1.0, -1.0]), neuron(0.0, 0.0, &[0.5, 0.25])],
        hidden: vec![],
        output: vec![neuron(0.0, 0.0, &[]), neuron(0.0, 1.0, &[])],
    };
    propagate(&mut net, &vec![bits(2.0), bits(4.0)], &float_unit).unwrap();
    let raw0 = ((0.0f32 + 2.0 * 1.0) + 4.0 * 0.5) + 0.0;
    let raw1 = ((0.0f32 + 2.0 * -1.0) + 4.0 * 0.25) + 1.0;
    assert_eq!(
        activations(&net.output),
        vec![1.0f32 / (1.0f32 + (-raw0).exp()), 1.0f32 / (1.0f32 + (-raw1).exp())]
    );
    assert_eq!(float(net.output[1].inner), 0.5);
}

#[test]
fn the_weighted_sum_goes_through_the_previous_layer_in_order() {
    let unit = |op: Op| match op {
        Op::Mul(a, b) => a * b,
        Op::Add(a, b) => a * 10 + b,
        _ => 0,
    };
    let net = NeuralNetwork {
        input: vec![
            Neuron { inner: 1, bias: 0, weights: vec![2, 9] },
            Neuron { inner: 3, bias: 0, weights: vec![1, 9] },
            Neuron { inner: 2, bias: 0, weights: vec![4, 9] },
        ],
        hidden: vec![],
        output: vec![Neuron::new(), Neuron::new()],
    };
    assert_eq!(calculate_inner(&net, 1, 0, &unit), ((0 * 10 + 2) * 10 + 3) * 10 + 8);
    assert_eq!(calculate_inner(&net, 1, 1, &unit), ((0 * 10 + 9) * 10 + 27) * 10 + 18);
}

#[test]
fn calculate_inner_leaves_the_bias_out() {
    let mut net = all_halves();
    net.input[0].inner = bits(1.0);
    net.input[1].inner = bits(3.0);
    net.hidden[0][0].bias = bits(100.0);
    net.hidden[0][0].inner = bits(2.0);
    net.hidden[0][1].inner = bits(2.0);
    net.hidden[0][2].inner = bits(-4.0);
    assert_eq!(float(calculate_inner(&net, 1, 0, &float_unit)), 2.0);
    assert_eq!(float(calculate_inner(&net, 1, 2, &float_unit)), 2.0);
    assert_eq!(float(calculate_inner(&net, 2, 0, &float_unit)), 0.0);
}

#[test]
fn calculate_inner_beyond_the_network_is_zero() {
    let net = all_halves();
    assert_eq!(calculate_inner(&net, 4, 0, &float_unit), 0);
    assert_eq!(calculate_inner(&net, 100, 7, &float_unit), 0);
}

#[test]
fn calculate_all_inners_starts_from_the_input_activations() {
    let mut net = all_halves();
    net.input[0].inner = bits(1.0);
    let before = net.clone();
    let after = calculate_all_inners(&net, &float_unit);
    assert_eq!(net, before);
    assert_eq!(activations(&after.input), vec![1.0, 0.0]);
    assert_eq!(activations(&after.hidden[0]), vec![0.5, 0.5, 0.5]);
    assert_eq!(float(after.output[0].inner), 1.0f32 / (1.0f32 + (-0.75f32).exp()));
    let mut same = net.clone();
    propagate(&mut same, &vec![bits(1.0), bits(0.0)], &float_unit).unwrap();
    assert_eq!(after, same);
}

#[test]
fn mean_squared_error_is_zero_on_the_target() {
    let net = NeuralNetwork {
        input: vec![],
        hidden: vec![],
        output: vec![neuron(0.25, 0.0, &[]), neuron(0.75, 0.0, &[]), neuron(1.0, 0.0, &[])],
    };
    let target = vec![bits(0.25), bits(0.75), bits(1.0)];
    assert_eq!(mean_squared_error(&target, &net, &float_unit), Ok(bits(0.0)));
}

#[test]
fn mean_squared_error_is_positive_off_the_target() {
    let net = NeuralNetwork {
        input: vec![],
        hidden: vec![],
        output: vec![neuron(0.25, 0.0, &[]), neuron(0.75, 0.0, &[])],
    };
    for target in [[0.25f32, 0.5], [0.0, 0.75], [1.0, 1.0], [-3.0, 4.0], [0.250001, 0.75]] {
        let cost = float(mean_squared_error(&vec![bits(target[0]), bits(target[1])], &net, &float_unit).unwrap());
        assert!(cost > 0.0, "at {:?}", target);
    }
}

#[test]
fn mean_squared_error_is_the_mean_of_the_squares() {
    let net = NeuralNetwork {
        input: vec![],
        hidden: vec![],
        output: vec![neuron(0.5, 0.0, &[]), neuron(1.0, 0.0, &[]), neuron(0.0, 0.0, &[]), neuron(3.0, 0.0, &[])],
    };
    let target = vec![bits(1.0), bits(1.0), bits(2.0), bits(0.0)];
    assert_eq!(
        mean_squared_error(&target, &net, &float_unit),
        Ok(bits((0.25 + 0.0 + 4.0 + 9.0) / 4.0))
    );
    assert_eq!(mean_squared_error(&target, &net, &float_unit), Ok(bits(3.3125)));
}

#[test]
fn mean_squared_error_sums_in_order_and_divides_by_the_count() {
    let unit = |op: Op| match op {
        Op::Sub(a, b) => a - b,
        Op::Mul(a, b) => a * b,
        Op::Add(a, b) => a * 100 + b,
        Op::FromCount(n) => n as u32 + 1000,
        Op::Div(a, b) => a + b,
        _ => 0,
    };
    let net = NeuralNetwork {
        input: vec![],
        hidden: vec![],
        output: vec![Neuron::with_inner(5), Neuron::with_inner(9)],
    };
    assert_eq!(mean_squared_error(&vec![2, 3], &net, &unit), Ok((0 * 100 + 9) * 100 + 36 + 1002));
}

#[test]
fn mean_squared_error_refuses_a_target_of_the_wrong_length() {
    let mut net = all_halves();
    propagate(&mut net, &vec![bits(1.0), bits(0.0)], &float_unit).unwrap();
    assert_eq!(
        mean_squared_error(&vec![bits(1.0), bits(0.0)], &net, &float_unit),
        Err(ShapeError { expected: 1, found: 2 })
    );
    assert_eq!(
        mean_squared_error(&vec![], &net, &float_unit),
        Err(ShapeError { expected: 1, found: 0 })
    );
}
