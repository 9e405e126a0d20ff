use vstd::prelude::*;

pub mod arith;
pub mod error;
pub mod laws;
pub mod layer;
pub mod network;
pub mod neuron;
pub mod source;
pub mod stream;
pub mod topology;

verus! {

pub use crate::error::NetworkError;
pub use crate::layer::Layer;
pub use crate::network::Network;
pub use crate::neuron::Neuron;
pub use crate::source::ParamSource;
pub use crate::stream::WeightCursor;
pub use crate::topology::LayerTopology;

} // verus!
