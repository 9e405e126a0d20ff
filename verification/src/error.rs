use vstd::prelude::*;

verus! {

/// The ways a construction or an evaluation call can fail.
///
/// Every failure is a contract violation reported at the point of the call;
/// no partially built network is ever returned.
#[derive(Clone, Copy, Debug, PartialEq, Eq, Structural)]
pub enum NetworkError {
    /// An input vector's length disagrees with the expected fan-in.
    ShapeMismatch,
    /// Fewer than two topology entries were supplied to a network builder.
    DegenerateTopology,
    /// A neuron would have been built with an empty weight vector.
    EmptyWeights,
    /// The flat weight sequence ran out before the shape was fully populated.
    TooFewWeights,
    /// The flat weight sequence still had values left after the whole shape
    /// was populated.
    TooManyWeights,
}

} // verus!
