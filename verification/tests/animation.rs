use neural_wasm::animation::{
    ORBIT_CENTER_X, ORBIT_CENTER_Y, ORBIT_RADIUS, SOURCE_THRESHOLD_TENTHS, TARGET_THRESHOLD_TENTHS,
};
use neural_wasm::{NeuralNetwork, OrbitSlot, Position, Term};

fn advance(clock: f64, step: f64) -> f64 {
    clock + step
}

fn oscillate(clock: f64, halves: u8, id: usize) -> f64 {
    ((clock * (halves as f64 / 2.0) + id as f64).sin() + 1.0) / 2.0
}

fn exceeds(value: f64, tenths: u8) -> bool {
    value > tenths as f64 / 10.0
}

fn on_orbit(time: f64, slot: OrbitSlot) -> Position<f64> {
    let angle =
        time * 0.001 + (slot.index as f64 * 2.0 * std::f64::consts::PI / slot.count as f64);
    Position {
        x: slot.center_x as f64 + slot.radius as f64 * angle.cos(),
        y: slot.center_y as f64 + slot.radius as f64 * angle.sin(),
    }
}

fn step(net: &mut NeuralNetwork<f64>, delta_time: f64) {
    net.animate_step(delta_time, advance, oscillate, exceeds);
}

fn activations(net: &NeuralNetwork<f64>) -> Vec<f64> {
    net.neurons().iter().map(|n| n.activation).collect()
}

fn close(left: f64, right: f64) -> bool {
    (left - right).abs() < 1e-12
}

#[test]
fn thresholds_and_orbit_constants() {
    assert_eq!(SOURCE_THRESHOLD_TENTHS, 5);
    assert_eq!(TARGET_THRESHOLD_TENTHS, 3);
    assert_eq!((ORBIT_CENTER_X, ORBIT_CENTER_Y, ORBIT_RADIUS), (400, 300, 200));
}

#[test]
fn step_advances_the_clock() {
    let mut net = NeuralNetwork::new(0.0);
    step(&mut net, 0.25);
    assert_eq!(net.animation_time(), 0.25);
    step(&mut net, 0.5);
    assert_eq!(net.animation_time(), 0.75);
    step(&mut net, 0.0);
    assert_eq!(net.animation_time(), 0.75);
}

#[test]
fn step_follows_each_kinds_oscillator() {
    let mut net = NeuralNetwork::new(0.0);
    net.add_neuron(0.0, 0.0, "input", 0.0);
    net.add_neuron(0.0, 0.0, "hidden", 0.0);
    net.add_neuron(0.0, 0.0, "output", 0.0);
    net.add_neuron(0.0, 0.0, "other", 0.0);
    step(&mut net, 2.0);
    let got = activations(&net);
    assert!(close(got[0], 0.5705600040299336));
    assert!(close(got[1], 0.36029225090053707));
    assert!(close(got[2], 0.1215987523460359));
    assert!(close(got[3], 0.36029225090053707));
}

#[test]
fn step_hands_clock_frequency_and_id_to_the_kernel() {
    let mut net = NeuralNetwork::new(0.0);
    net.add_neuron(0.0, 0.0, "output", 0.0);
    net.add_neuron(0.0, 0.0, "hidden", 0.0);
    net.add_neuron(0.0, 0.0, "input", 0.0);
    net.add_neuron(0.0, 0.0, "", 0.0);
    net.animate_step(
        3.0,
        |clock: f64, step: f64| clock + 2.0 * step,
        |clock: f64, halves: u8, id: usize| clock * 100.0 + halves as f64 * 10.0 + id as f64,
        exceeds,
    );
    assert_eq!(net.animation_time(), 6.0);
    assert_eq!(activations(&net), vec![611.0, 642.0, 623.0, 624.0]);
}

#[test]
fn step_zero_twice_gives_the_same_activations() {
    let mut net = NeuralNetwork::new(0.0);
    net.create_sample_network(|whole: u32| whole as f64, || 0.5);
    step(&mut net, 0.75);
    step(&mut net, 0.0);
    let first = activations(&net);
    let first_flags: Vec<bool> = net.connections().iter().map(|c| c.active).collect();
    step(&mut net, 0.0);
    let second = activations(&net);
    let second_flags: Vec<bool> = net.connections().iter().map(|c| c.active).collect();
    assert_eq!(first, second);
    assert_eq!(first_flags, second_flags);
    assert_eq!(first.len(), 6);
}

#[test]
fn step_zero_on_a_fresh_network_is_repeatable() {
    let mut net = NeuralNetwork::new(0.0);
    net.add_neuron(0.0, 0.0, "input", 0.0);
    net.add_neuron(0.0, 0.0, "hidden", 0.0);
    step(&mut net, 0.0);
    let first = activations(&net);
    step(&mut net, 0.0);
    assert_eq!(activations(&net), first);
    assert!(close(first[0], (1.0f64.sin() + 1.0) / 2.0));
    assert!(close(first[1], (2.0f64.sin() + 1.0) / 2.0));
}

#[test]
fn step_overwrites_what_a_sweep_left() {
    let mut net = NeuralNetwork::new(0.0);
    net.add_neuron(0.0, 0.0, "input", 0.0);
    net.add_neuron(0.0, 0.0, "output", 0.0);
    net.add_connection(1, 2, 1.0);
    net.predict(vec![0.125], |bias: f64, terms: Vec<Term<f64>>| bias + terms.len() as f64);
    assert_eq!(activations(&net), vec![0.125, 1.0]);
    step(&mut net, 0.0);
    let got = activations(&net);
    assert!(close(got[0], (1.0f64.sin() + 1.0) / 2.0));
    assert!(close(got[1], (2.0f64.sin() + 1.0) / 2.0));
}

#[test]
fn step_lights_a_connection_when_both_ends_exceed_their_thresholds() {
    // Activations by id: 0.6, 0.4, 0.2, 0.5, 0.3.
    let mut net = NeuralNetwork::new(0.0);
    for _ in 0..5 {
        net.add_neuron(0.0, 0.0, "hidden", 0.0);
    }
    net.add_connection(1, 2, 0.0); // 0.6 > 0.5 and 0.4 > 0.3
    net.add_connection(1, 3, 0.0); // target 0.2 too low
    net.add_connection(2, 1, 0.0); // source 0.4 too low
    net.add_connection(4, 1, 0.0); // source 0.5 is not above 0.5
    net.add_connection(1, 5, 0.0); // target 0.3 is not above 0.3
    net.add_connection(1, 1, 0.0); // 0.6 on both ends
    net.add_connection(3, 3, 0.0); // 0.2 on both ends
    net.animate_step(
        1.0,
        advance,
        |_clock: f64, _halves: u8, id: usize| [0.6, 0.4, 0.2, 0.5, 0.3][id - 1],
        exceeds,
    );
    let flags: Vec<bool> = net.connections().iter().map(|c| c.active).collect();
    assert_eq!(flags, vec![true, false, false, false, false, true, false]);
}

#[test]
fn step_recomputes_flags_every_time() {
    let mut net = NeuralNetwork::new(0.0);
    net.add_neuron(0.0, 0.0, "input", 0.0);
    net.add_neuron(0.0, 0.0, "output", 0.0);
    net.add_connection(1, 2, 0.0);
    net.animate_step(1.0, advance, |_c: f64, _h: u8, _id: usize| 0.9, exceeds);
    assert!(net.connection(1).unwrap().active);
    net.animate_step(1.0, advance, |_c: f64, _h: u8, _id: usize| 0.1, exceeds);
    assert!(!net.connection(1).unwrap().active);
}

#[test]
fn step_hands_the_thresholds_to_the_kernel() {
    let mut net = NeuralNetwork::new(0.0);
    net.add_neuron(0.0, 0.0, "input", 0.0);
    net.add_neuron(0.0, 0.0, "output", 0.0);
    net.add_connection(1, 2, 0.0);
    net.animate_step(
        1.0,
        advance,
        |_clock: f64, _halves: u8, id: usize| id as f64,
        |value: f64, tenths: u8| {
            assert!((value, tenths) == (1.0, 5) || (value, tenths) == (2.0, 3));
            true
        },
    );
    assert!(net.connection(1).unwrap().active);
}

#[test]
fn step_changes_activations_clock_and_flags_only() {
    let mut net = NeuralNetwork::new(0.0);
    net.add_neuron(1.0, 2.0, "input", 0.1);
    net.add_neuron(3.0, 4.0, "output", 0.2);
    net.add_connection(1, 2, 0.75);
    step(&mut net, 1.0);
    let neuron = net.neuron(2).unwrap();
    assert_eq!((neuron.id, neuron.position.x, neuron.position.y, neuron.bias), (2, 3.0, 4.0, 0.2));
    assert_eq!(neuron.neuron_type, "output");
    assert_eq!(neuron.color, "#FF9800");
    assert_eq!(neuron.symbol, "O");
    let link = net.connection(1).unwrap();
    assert_eq!((link.id, link.from_id, link.to_id, link.weight), (1, 1, 2, 0.75));
}

#[test]
fn orbit_places_neurons_by_ascending_id() {
    let mut net = NeuralNetwork::new(0.0);
    for _ in 0..4 {
        net.add_neuron(7.0, 7.0, "hidden", 0.0);
    }
    net.orbital_dance(0.0, on_orbit);
    let places: Vec<(f64, f64)> =
        net.neurons().iter().map(|n| (n.position.x, n.position.y)).collect();
    let expected = [(600.0, 300.0), (400.0, 500.0), (200.0, 300.0), (400.0, 100.0)];
    for (got, want) in places.iter().zip(expected.iter()) {
        assert!((got.0 - want.0).abs() < 1e-9);
        assert!((got.1 - want.1).abs() < 1e-9);
    }
}

#[test]
fn orbit_turns_with_time() {
    let mut net = NeuralNetwork::new(0.0);
    net.add_neuron(0.0, 0.0, "input", 0.0);
    net.orbital_dance(1000.0, on_orbit);
    let only = net.neuron(1).unwrap().position;
    assert!((only.x - 508.06046117362797).abs() < 1e-9);
    assert!((only.y - 468.2941969615793).abs() < 1e-9);

    net.add_neuron(0.0, 0.0, "input", 0.0);
    net.add_neuron(0.0, 0.0, "input", 0.0);
    net.orbital_dance(500.0, on_orbit);
    let second = net.neuron(2).unwrap().position;
    assert!((second.x - 229.2028046801074).abs() < 1e-9);
    assert!((second.y - 404.0592046426382).abs() < 1e-9);
}

#[test]
fn orbit_hands_slot_and_circle_to_the_kernel() {
    let mut net = NeuralNetwork::new(0.0);
    for _ in 0..3 {
        net.add_neuron(0.0, 0.0, "output", 0.0);
    }
    net.orbital_dance(12.5, |time: f64, slot: OrbitSlot| {
        assert_eq!(time, 12.5);
        assert_eq!(slot.count, 3);
        assert_eq!((slot.center_x, slot.center_y, slot.radius), (400, 300, 200));
        Position { x: slot.index as f64, y: slot.count as f64 }
    });
    let places: Vec<(f64, f64)> =
        net.neurons().iter().map(|n| (n.position.x, n.position.y)).collect();
    assert_eq!(places, vec![(0.0, 3.0), (1.0, 3.0), (2.0, 3.0)]);
}

#[test]
fn orbit_is_reproducible_at_the_same_time() {
    let mut net = NeuralNetwork::new(0.0);
    net.create_sample_network(|whole: u32| whole as f64, || 0.0);
    net.orbital_dance(1234.5, on_orbit);
    let first: Vec<(f64, f64)> =
        net.neurons().iter().map(|n| (n.position.x, n.position.y)).collect();
    net.orbital_dance(99.0, on_orbit);
    net.orbital_dance(1234.5, on_orbit);
    let second: Vec<(f64, f64)> =
        net.neurons().iter().map(|n| (n.position.x, n.position.y)).collect();
    assert_eq!(first, second);
}

#[test]
fn orbit_changes_positions_only() {
    let mut net = NeuralNetwork::new(0.0);
    net.add_neuron(1.0, 2.0, "input", 0.1);
    net.add_neuron(3.0, 4.0, "hidden", 0.2);
    net.add_connection(1, 2, 0.75);
    net.predict(vec![0.5], |bias: f64, _terms: Vec<Term<f64>>| bias * 2.0);
    net.orbital_dance(10.0, on_orbit);
    assert_eq!(activations(&net), vec![0.5, 0.4]);
    let neuron = net.neuron(2).unwrap();
    assert_eq!((neuron.id, neuron.bias), (2, 0.2));
    assert_eq!(neuron.neuron_type, "hidden");
    assert_eq!(neuron.color, "#2196F3");
    let link = net.connection(1).unwrap();
    assert_eq!((link.from_id, link.to_id, link.weight, link.active), (1, 2, 0.75, false));
    assert_eq!(net.animation_time(), 0.0);
}

#[test]
fn orbit_on_empty_network_asks_nothing() {
    let mut net: NeuralNetwork<f64> = NeuralNetwork::new(0.0);
    net.orbital_dance(1.0, |_time: f64, _slot: OrbitSlot| -> Position<f64> {
        panic!("no neuron to place")
    });
    assert_eq!(net.neuron_count(), 0);
}
