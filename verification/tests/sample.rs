use neural_wasm::sample::{SAMPLE_CONNECTIONS, SAMPLE_NEURONS};
use neural_wasm::NeuralNetwork;
use std::cell::Cell;

fn average(values: Vec<f64>) -> f64 {
    values.iter().sum::<f64>() / values.len() as f64
}

fn whole(value: u32) -> f64 {
    value as f64
}

#[test]
fn sample_network_has_two_inputs_three_hidden_one_output() {
    for seed in 0..5u32 {
        let next = Cell::new(seed);
        let draw = || {
            let now = next.get();
            next.set(now.wrapping_mul(1664525).wrapping_add(1013904223));
            (now % 2001) as f64 / 1000.0 - 1.0
        };
        let mut net = NeuralNetwork::new(0.0);
        net.create_sample_network(whole, draw);
        let state = net.get_network_state(average);
        assert_eq!(state.stats.input_neurons, 2);
        assert_eq!(state.stats.hidden_neurons, 3);
        assert_eq!(state.stats.output_neurons, 1);
        assert_eq!(state.stats.total_neurons, 6);
        assert_eq!(state.stats.total_connections, 7);
    }
    assert_eq!(SAMPLE_NEURONS, 6);
    assert_eq!(SAMPLE_CONNECTIONS, 7);
}

#[test]
fn sample_network_stands_where_the_table_says() {
    let mut net = NeuralNetwork::new(0.0);
    net.create_sample_network(whole, || 0.5);
    let sites: Vec<(usize, f64, f64, String)> = net
        .neurons()
        .iter()
        .map(|n| (n.id, n.position.x, n.position.y, n.neuron_type.clone()))
        .collect();
    assert_eq!(
        sites,
        vec![
            (1, 100.0, 150.0, "input".to_string()),
            (2, 100.0, 250.0, "input".to_string()),
            (3, 300.0, 100.0, "hidden".to_string()),
            (4, 300.0, 200.0, "hidden".to_string()),
            (5, 300.0, 300.0, "hidden".to_string()),
            (6, 500.0, 200.0, "output".to_string()),
        ]
    );
}

#[test]
fn sample_network_is_wired_as_the_table_says() {
    let mut net = NeuralNetwork::new(0.0);
    net.create_sample_network(whole, || 0.5);
    let links: Vec<(usize, usize, usize, bool)> =
        net.connections().iter().map(|c| (c.id, c.from_id, c.to_id, c.active)).collect();
    assert_eq!(
        links,
        vec![
            (1, 1, 3, false),
            (2, 1, 4, false),
            (3, 2, 4, false),
            (4, 2, 5, false),
            (5, 3, 6, false),
            (6, 4, 6, false),
            (7, 5, 6, false),
        ]
    );
}

#[test]
fn sample_network_takes_biases_and_weights_from_the_draws() {
    let calls = Cell::new(0u32);
    let draw = || {
        calls.set(calls.get() + 1);
        calls.get() as f64
    };
    let mut net = NeuralNetwork::new(0.0);
    net.create_sample_network(whole, draw);
    assert_eq!(calls.get(), 13);
    let mut drawn: Vec<f64> = net.neurons().iter().map(|n| n.bias).collect();
    drawn.extend(net.connections().iter().map(|c| c.weight));
    drawn.sort_by(|a, b| a.partial_cmp(b).unwrap());
    assert_eq!(drawn, (1..=13).map(|i| i as f64).collect::<Vec<f64>>());
    assert!(net.neurons().iter().all(|n| n.activation == 0.0));
}

#[test]
fn sample_network_replaces_what_was_there() {
    let mut net = NeuralNetwork::new(0.0);
    for _ in 0..9 {
        net.add_neuron(0.0, 0.0, "output", 0.0);
    }
    net.add_connection(9, 8, 0.5);
    net.create_sample_network(whole, || 0.25);
    assert_eq!(net.neuron_count(), 6);
    assert_eq!(net.connection_count(), 7);
    assert_eq!(net.neuron(1).unwrap().neuron_type, "input");
    assert_eq!(net.add_neuron(0.0, 0.0, "hidden", 0.0), 7);
    assert_eq!(net.add_connection(7, 6, 0.5), Some(8));
}

#[test]
fn sample_network_twice_is_the_same_network() {
    let mut net = NeuralNetwork::new(0.0);
    net.create_sample_network(whole, || 0.25);
    net.create_sample_network(whole, || 0.25);
    assert_eq!(net.neuron_count(), 6);
    assert_eq!(net.connection_count(), 7);
    let ids: Vec<usize> = net.neurons().iter().map(|n| n.id).collect();
    assert_eq!(ids, vec![1, 2, 3, 4, 5, 6]);
}

#[test]
fn sample_network_predicts_one_output() {
    let mut net = NeuralNetwork::new(0.0);
    net.create_sample_network(whole, || 0.5);
    let outputs = net.predict(vec![1.0, 0.0], |bias: f64, terms: Vec<neural_wasm::Term<f64>>| {
        let mut sum = bias;
        for term in terms.iter() {
            sum += term.activation * term.weight;
        }
        1.0 / (1.0 + (-sum).exp())
    });
    assert_eq!(outputs.len(), 1);
    // hidden 1 and 2 see input 1, hidden 3 sees only input 2
    let h_fed = 1.0 / (1.0 + (-(0.5f64 + 0.5)).exp());
    let h_unfed = 1.0 / (1.0 + (-0.5f64).exp());
    let expected = 1.0 / (1.0 + (-(0.5 + 0.5 * h_fed + 0.5 * h_fed + 0.5 * h_unfed)).exp());
    assert!((outputs[0] - expected).abs() < 1e-12);
}
