use neural_network::{Layer, LayerTopology, Network, NetworkError, Neuron, ParamSource};
use rand::Rng;
use rand::SeedableRng;
use rand_chacha::ChaCha8Rng;

struct ChaChaSource(ChaCha8Rng);

impl ParamSource for ChaChaSource {
    fn next_param(&mut self) -> u32 {
        self.0.gen_range(-1.0f32..=1.0f32).to_bits()
    }
}

fn bits(x: f32) -> u32 {
    x.to_bits()
}

fn val(b: u32) -> f32 {
    f32::from_bits(b)
}

fn bits_of(xs: &[f32]) -> Vec<u32> {
    xs.iter().map(|x| x.to_bits()).collect()
}

fn vals_of(bs: &[u32]) -> Vec<f32> {
    bs.iter().map(|b| f32::from_bits(*b)).collect()
}

fn relative_eq(a: f32, b: f32) -> bool {
    let diff = (a - b).abs();
    diff <= f32::EPSILON || diff <= f32::EPSILON * a.abs().max(b.abs())
}

fn relative_eq_all(a: &[f32], b: &[f32]) -> bool {
    a.len() == b.len() && a.iter().zip(b.iter()).all(|(x, y)| relative_eq(*x, *y))
}

fn topo(sizes: &[usize]) -> Vec<LayerTopology> {
    sizes.iter().map(|n| LayerTopology { neurons: *n }).collect()
}

#[test]
fn propogate() {
    let layer0 = Layer::new(vec![
        Neuron::new(bits(0.0), bits_of(&[-0.5, -0.4, -0.3])).unwrap(),
        Neuron::new(bits(0.0), bits_of(&[-0.2, -0.1, 0.0])).unwrap(),
    ]);
    let layer1 = Layer::new(vec![Neuron::new(bits(0.0), bits_of(&[-0.5, 0.5])).unwrap()]);
    let network = Network::new(vec![layer0.clone(), layer1.clone()]);

    let actual = network.propogate(bits_of(&[0.5, 0.6, 0.7])).unwrap();
    let mid = layer0.propogate(bits_of(&[0.5, 0.6, 0.7])).unwrap();
    let expected = layer1.propogate(mid).unwrap();

    assert!(relative_eq_all(&vals_of(&actual), &vals_of(&expected)));
}

#[test]
fn weights() {
    let network = Network::new(vec![
        Layer::new(vec![Neuron::new(bits(0.1), bits_of(&[0.2, 0.3, 0.4])).unwrap()]),
        Layer::new(vec![Neuron::new(bits(0.5), bits_of(&[0.6, 0.7, 0.8])).unwrap()]),
    ]);
    let actual = network.weights();
    let expected = bits_of(&[0.1, 0.2, 0.3, 0.4, 0.5, 0.6, 0.7, 0.8]);

    assert!(relative_eq_all(&vals_of(&actual), &vals_of(&expected)));
}

#[test]
fn network_random_shape() {
    let mut source = ChaChaSource(ChaCha8Rng::from_seed(Default::default()));
    let network = Network::random(&mut source, &topo(&[3, 2, 1])).unwrap();

    assert_eq!(network.layers.len(), 2);
    assert_eq!(network.layers[0].neurons.len(), 2);
    assert_eq!(network.layers[1].neurons.len(), 1);
    for neuron in &network.layers[0].neurons {
        assert_eq!(neuron.weights.len(), 3);
    }
    assert_eq!(network.layers[1].neurons[0].weights.len(), 2);

    // the draws arrive in canonical order: first neuron's bias first
    assert!(relative_eq(val(network.layers[0].neurons[0].bias), -0.6255188));
    let first_weights = vals_of(&network.layers[0].neurons[0].weights);
    let expected = [0.67383957, 0.8181262, 0.26284897];
    for (w, e) in first_weights.iter().zip(expected.iter()) {
        assert!(relative_eq(*w, *e));
    }
    assert!(relative_eq(val(network.layers[0].neurons[1].bias), 0.5238807));
    let second_weights = vals_of(&network.layers[0].neurons[1].weights);
    let expected = [-0.5351684, 0.069369555, -0.7648182];
    for (w, e) in second_weights.iter().zip(expected.iter()) {
        assert!(relative_eq(*w, *e));
    }
}

#[test]
fn round_trip_rebuild() {
    let mut source = ChaChaSource(ChaCha8Rng::from_seed(Default::default()));
    let network = Network::random(&mut source, &topo(&[3, 2, 1])).unwrap();

    let genome = network.weights();
    assert_eq!(genome.len(), 2 * 4 + 1 * 3);

    let rebuilt = Network::from_weights(&topo(&[3, 2, 1]), genome.clone()).unwrap();
    assert_eq!(rebuilt.weights(), genome);

    let input = bits_of(&[0.25, -0.5, 0.75]);
    let a = network.propogate(input.clone()).unwrap();
    let b = rebuilt.propogate(input).unwrap();
    assert_eq!(a, b);
}

#[test]
fn too_many_weights() {
    let flat: Vec<u32> = (0..10).map(|i| bits(i as f32 * 0.1)).collect();
    let r = Network::from_weights(&topo(&[2, 2, 1]), flat);
    assert_eq!(r.unwrap_err(), NetworkError::TooManyWeights);
}

#[test]
fn too_few_weights() {
    let flat: Vec<u32> = (0..5).map(|i| bits(i as f32 * 0.1)).collect();
    let r = Network::from_weights(&topo(&[2, 2, 1]), flat);
    assert_eq!(r.unwrap_err(), NetworkError::TooFewWeights);
}

#[test]
fn exact_weight_count_builds() {
    let flat: Vec<u32> = (0..9).map(|i| bits(i as f32 * 0.1)).collect();
    let network = Network::from_weights(&topo(&[2, 2, 1]), flat.clone()).unwrap();
    assert_eq!(network.weights(), flat);
}

#[test]
fn degenerate_topology() {
    let r = Network::from_weights(&topo(&[5]), Vec::new());
    assert_eq!(r.unwrap_err(), NetworkError::DegenerateTopology);

    let mut source = ChaChaSource(ChaCha8Rng::from_seed(Default::default()));
    let r = Network::random(&mut source, &topo(&[5]));
    assert_eq!(r.unwrap_err(), NetworkError::DegenerateTopology);
}

#[test]
fn zero_size_entry() {
    let mut source = ChaChaSource(ChaCha8Rng::from_seed(Default::default()));
    let r = Network::random(&mut source, &topo(&[2, 0, 1]));
    assert_eq!(r.unwrap_err(), NetworkError::EmptyWeights);

    let r = Network::from_weights(&topo(&[2, 0, 1]), vec![bits(0.1)]);
    assert_eq!(r.unwrap_err(), NetworkError::EmptyWeights);
}

#[test]
fn shape_mismatch_propogate() {
    let mut source = ChaChaSource(ChaCha8Rng::from_seed(Default::default()));
    let network = Network::random(&mut source, &topo(&[3, 2, 1])).unwrap();
    let r = network.propogate(bits_of(&[1.0, 2.0]));
    assert_eq!(r.unwrap_err(), NetworkError::ShapeMismatch);
}

#[test]
fn activation_boundary_values() {
    // a single neuron network: bias 0.0, weight 1.0 computes max(0, x)
    let network = Network::from_weights(&topo(&[1, 1]), bits_of(&[0.0, 1.0])).unwrap();
    let out = network.propogate(bits_of(&[1.0])).unwrap();
    assert_eq!(vals_of(&out), vec![1.0]);
    let out = network.propogate(bits_of(&[-1.0])).unwrap();
    assert_eq!(vals_of(&out), vec![0.0]);
}
