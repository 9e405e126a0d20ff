use neural_network::{NetworkError, Neuron, ParamSource, WeightCursor};
use rand::Rng;
use rand::SeedableRng;
use rand_chacha::ChaCha8Rng;

/// A parameter source backed by a seeded ChaCha generator, drawing uniform
/// single-precision values in [-1.0, 1.0] as the bit patterns the library
/// consumes.
struct ChaChaSource(ChaCha8Rng);

impl ParamSource for ChaChaSource {
    fn next_param(&mut self) -> u32 {
        self.0.gen_range(-1.0f32..=1.0f32).to_bits()
    }
}

fn bits(x: f32) -> u32 {
    x.to_bits()
}

fn val(b: u32) -> f32 {
    f32::from_bits(b)
}

fn relative_eq(a: f32, b: f32) -> bool {
    let diff = (a - b).abs();
    diff <= f32::EPSILON || diff <= f32::EPSILON * a.abs().max(b.abs())
}

#[test]
fn random() {
    let mut source = ChaChaSource(ChaCha8Rng::from_seed(Default::default()));
    let neuron = Neuron::random(&mut source, 4).unwrap();

    assert!(relative_eq(val(neuron.bias), -0.6255188));

    let weights: Vec<f32> = neuron.weights.iter().map(|w| val(*w)).collect();
    let expected = [0.67383957, 0.8181262, 0.26284897, 0.5238807];
    assert_eq!(weights.len(), expected.len());
    for (w, e) in weights.iter().zip(expected.iter()) {
        assert!(relative_eq(*w, *e));
    }
}

#[test]
fn returns_propogated_inputs() {
    let neuron = Neuron::new(bits(0.1), vec![bits(-0.3), bits(0.6), bits(0.9)]).unwrap();
    let input = vec![bits(0.5), bits(-0.6), bits(0.7)];
    let actual = val(neuron.propogate(&input).unwrap());
    let expected = (0.1 + (0.5 * -0.3) + (-0.6 * 0.6) + (0.7 * 0.9f32)).max(0.0);

    assert!(relative_eq(actual, expected));
}

#[test]
fn restricts_outputs() {
    let neuron = Neuron::new(bits(0.0), vec![bits(1.0)]).unwrap();
    let v1 = val(neuron.propogate(&vec![bits(-1.0)]).unwrap());
    let v2 = val(neuron.propogate(&vec![bits(-0.5)]).unwrap());
    let v4 = val(neuron.propogate(&vec![bits(0.5)]).unwrap());
    let v5 = val(neuron.propogate(&vec![bits(1.0)]).unwrap());
    assert!(relative_eq(v1, 0.0));
    assert!(relative_eq(v2, 0.0));
    assert!(relative_eq(v4, 0.5));
    assert!(relative_eq(v5, 1.0));
}

#[test]
fn from_weights() {
    let flat = vec![bits(0.1), bits(0.2), bits(0.3), bits(0.4)];
    let mut cursor = WeightCursor::new(flat);
    let actual = Neuron::from_weights(3, &mut cursor).unwrap();
    let expected = Neuron::new(bits(0.1), vec![bits(0.2), bits(0.3), bits(0.4)]).unwrap();

    assert!(relative_eq(val(actual.bias), val(expected.bias)));
    let aw: Vec<f32> = actual.weights.iter().map(|w| val(*w)).collect();
    let ew: Vec<f32> = expected.weights.iter().map(|w| val(*w)).collect();
    assert_eq!(aw.len(), ew.len());
    for (a, e) in aw.iter().zip(ew.iter()) {
        assert!(relative_eq(*a, *e));
    }
}

#[test]
fn empty_weight_vector() {
    let r = Neuron::new(bits(0.5), Vec::new());
    assert_eq!(r.unwrap_err(), NetworkError::EmptyWeights);
}

#[test]
fn neuron_underflow() {
    let mut cursor = WeightCursor::new(vec![bits(0.1), bits(0.2)]);
    let r = Neuron::from_weights(3, &mut cursor);
    assert_eq!(r.unwrap_err(), NetworkError::TooFewWeights);
    // the cursor is untouched on failure
    assert_eq!(cursor.len_remaining(), 2);
}

#[test]
fn neuron_shape_mismatch() {
    let neuron = Neuron::new(bits(0.1), vec![bits(0.2), bits(0.3)]).unwrap();
    let r = neuron.propogate(&vec![bits(1.0)]);
    assert_eq!(r.unwrap_err(), NetworkError::ShapeMismatch);
}
