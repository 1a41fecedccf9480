use evolution::network::parameter_total;
use rand::{Rng, SeedableRng};
use rand_chacha::ChaCha8Rng;
use evolution::{Layer, LayerTopology, Network, Neuron, ShapeError, Weight};

#[derive(Clone, Copy, Debug, PartialEq)]
struct W(f32);

impl Weight for W {
    fn spec_zero() -> Self {
        W(0.0)
    }

    fn spec_plus(self, other: Self) -> Self {
        W(self.0 + other.0)
    }

    fn spec_times(self, other: Self) -> Self {
        W(self.0 * other.0)
    }

    fn spec_relu(self) -> Self {
        W(self.0.max(0.0))
    }

    fn zero() -> Self {
        Self::spec_zero()
    }

    fn plus(self, other: Self) -> Self {
        self.spec_plus(other)
    }

    fn times(self, other: Self) -> Self {
        self.spec_times(other)
    }

    fn relu(self) -> Self {
        self.spec_relu()
    }

    fn draw(rng: &mut ChaCha8Rng) -> Self {
        W(rng.gen_range(-1.0..=1.0))
    }
}

fn ws(values: &[f32]) -> Vec<W> {
    values.iter().map(|&v| W(v)).collect()
}

fn floats(values: &[W]) -> Vec<f32> {
    values.iter().map(|w| w.0).collect()
}

fn assert_close(actual: &[f32], expected: &[f32]) {
    assert_eq!(actual.len(), expected.len());
    for (a, e) in actual.iter().zip(expected) {
        let diff = (a - e).abs();
        let largest = a.abs().max(e.abs());
        assert!(diff <= f32::EPSILON || diff <= largest * f32::EPSILON, "{} != {}", a, e);
    }
}

fn topology(sizes: &[usize]) -> Vec<LayerTopology> {
    sizes.iter().map(|&neurons| LayerTopology { neurons }).collect()
}

#[test]
fn neuron_is_created_correctly() {
    let mut rng = ChaCha8Rng::from_seed(Default::default());
    let neuron = Neuron::<W>::random(4, &mut rng);

    assert_close(&[neuron.bias().0], &[-0.6255188]);
    assert_close(
        &floats(neuron.weights()),
        &[0.67383957, 0.8181262, 0.26284897, 0.5238807],
    );
}

#[test]
fn random_network_draws_in_flat_order() {
    let layers = topology(&[3, 4, 2]);
    let network = Network::<W>::random(&layers, &mut ChaCha8Rng::seed_from_u64(5));
    let weights = network.weights();
    assert_eq!(weights.len(), 26);
    assert!(weights.iter().all(|w| (-1.0..=1.0).contains(&w.0)));

    let mut rng = ChaCha8Rng::seed_from_u64(5);
    let drawn: Vec<W> = (0..26).map(|_| W::draw(&mut rng)).collect();
    assert_eq!(weights, drawn);
    assert_eq!(network.propagate(ws(&[0.1, 0.2, 0.3])).len(), 2);
}

#[test]
fn layer_is_created_correctly() {}

#[test]
fn network_is_created_correctly() {}

#[test]
fn layer_propagates_correctly() {}

#[test]
fn network_propagates_correctly() {}

#[test]
fn neuron_propagates_correctly() {
    let neuron = Neuron::new(W(0.5), ws(&[-0.3, 0.8]));

    assert_close(&[neuron.propagate(&ws(&[-10.0, -10.0])).0], &[0.0]);
    assert_close(
        &[neuron.propagate(&ws(&[0.5, 1.0])).0],
        &[(-0.3 * 0.5) + (0.8 * 1.0) + 0.5],
    );
}

#[test]
fn tests_test() {
    let network = Network::new(vec![
        Layer::new(vec![Neuron::new(W(0.1), ws(&[0.2, 0.3, 0.4]))]),
        Layer::new(vec![Neuron::new(W(0.5), ws(&[0.6, 0.7, 0.8]))]),
    ]);

    let actual = network.weights();
    let expected = vec![0.1, 0.2, 0.3, 0.4, 0.5, 0.6, 0.7, 0.8];

    assert_close(&floats(&actual), &expected);
}

#[test]
fn tests_test_from_weights() {
    let layers = &[LayerTopology { neurons: 3 }, LayerTopology { neurons: 2 }];

    let weights = vec![0.1, 0.2, 0.3, 0.4, 0.5, 0.6, 0.7, 0.8];

    let network = Network::from_weights(layers, ws(&weights)).unwrap();
    let actual: Vec<_> = network.weights();

    assert_close(&floats(&actual), &weights);
}

#[test]
fn round_trip_on_three_layers() {
    let layers = topology(&[2, 3, 1]);
    let weights: Vec<f32> = (0..13).map(|n| n as f32 * 0.25 - 1.0).collect();
    let network = Network::from_weights(&layers, ws(&weights)).unwrap();
    assert_eq!(floats(&network.weights()), weights);
    let again = Network::from_weights(&layers, network.weights()).unwrap();
    assert_eq!(again.weights(), network.weights());
}

#[test]
fn flat_order_is_bias_then_weights() {
    let layers = topology(&[2, 2]);
    let network = Network::from_weights(&layers, ws(&[1.0, 2.0, 3.0, 4.0, 5.0, 6.0])).unwrap();
    let neurons = network.layers()[0].neurons();
    assert_eq!(neurons.len(), 2);
    assert_eq!(neurons[0].bias(), W(1.0));
    assert_eq!(floats(neurons[0].weights()), vec![2.0, 3.0]);
    assert_eq!(neurons[1].bias(), W(4.0));
    assert_eq!(floats(neurons[1].weights()), vec![5.0, 6.0]);
}

#[test]
fn too_few_weights_are_refused() {
    let layers = topology(&[3, 2]);
    let result = Network::from_weights(&layers, ws(&[0.0; 7]));
    assert_eq!(result.err(), Some(ShapeError::NotEnoughWeights));
    let empty = Network::<W>::from_weights(&layers, Vec::new());
    assert_eq!(empty.err(), Some(ShapeError::NotEnoughWeights));
}

#[test]
fn too_many_weights_are_refused() {
    let layers = topology(&[3, 2]);
    let result = Network::from_weights(&layers, ws(&[0.0; 9]));
    assert_eq!(result.err(), Some(ShapeError::TooManyWeights));
}

#[test]
fn empty_output_layer_takes_no_weights() {
    let layers = topology(&[4, 0]);
    let network = Network::<W>::from_weights(&layers, Vec::new()).unwrap();
    assert!(network.weights().is_empty());
    assert!(network.propagate(ws(&[1.0, 2.0, 3.0, 4.0])).is_empty());
}

#[test]
fn parameter_total_counts_bias_and_weights() {
    assert_eq!(parameter_total(&topology(&[3, 2])), Some(8));
    assert_eq!(parameter_total(&topology(&[2, 3, 1])), Some(13));
    assert_eq!(parameter_total(&topology(&[5])), Some(0));
    assert_eq!(parameter_total(&topology(&[usize::MAX, 2])), None);
    assert_eq!(parameter_total(&topology(&[usize::MAX, 0])), Some(0));
}

#[test]
fn huge_topology_wants_more_weights_than_fit() {
    let layers = topology(&[usize::MAX / 2, 4]);
    let result = Network::from_weights(&layers, ws(&[1.0]));
    assert_eq!(result.err(), Some(ShapeError::NotEnoughWeights));
}

#[test]
fn relu_floor_on_single_neuron() {
    let layers = topology(&[2, 1]);
    let network = Network::from_weights(&layers, ws(&[-1.0, 0.5, 0.25])).unwrap();
    // -1 + 0.5 * 1 + 0.25 * 2 = 0
    assert_eq!(floats(&network.propagate(ws(&[1.0, 2.0]))), vec![0.0]);
    // -1 + 0.5 * 4 + 0.25 * 4 = 2
    assert_eq!(floats(&network.propagate(ws(&[4.0, 4.0]))), vec![2.0]);
    // negative sum is floored
    assert_eq!(floats(&network.propagate(ws(&[-4.0, -4.0]))), vec![0.0]);
}

#[test]
fn propagate_folds_through_layers() {
    let layers = topology(&[2, 2, 1]);
    let network = Network::from_weights(
        &layers,
        ws(&[0.0, 1.0, 0.0, 0.0, 0.0, 1.0, 0.5, 2.0, -1.0]),
    )
    .unwrap();
    // first layer copies its inputs, the second computes 0.5 + 2a - b
    assert_eq!(floats(&network.propagate(ws(&[3.0, 1.0]))), vec![5.5]);
    assert_eq!(floats(&network.propagate(ws(&[1.0, 3.0]))), vec![0.0]);
}

#[test]
fn propagate_is_repeatable() {
    let layers = topology(&[3, 4, 2]);
    let weights: Vec<f32> = (0..26).map(|n| ((n * 7) % 11) as f32 * 0.1 - 0.5).collect();
    let network = Network::from_weights(&layers, ws(&weights)).unwrap();
    let inputs = ws(&[0.3, -0.7, 1.1]);
    let first = network.propagate(inputs.clone());
    let second = network.propagate(inputs);
    assert_eq!(first.len(), 2);
    assert_eq!(first, second);
}
