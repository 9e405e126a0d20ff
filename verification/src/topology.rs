use vstd::prelude::*;

verus! {

/// Describes one layer of a network under construction: how many neurons it
/// has. The first entry of a topology list gives the network's input width
/// instead and builds no layer of its own.
#[derive(Clone, Copy, Debug, PartialEq, Eq, Structural)]
pub struct LayerTopology {
    pub neurons: usize,
}

/// The neuron counts named by a topology list, as mathematical integers.
pub open spec fn topo_counts(t: Seq<LayerTopology>) -> Seq<nat> {
    t.map(|i: int, lt: LayerTopology| lt.neurons as nat)
}

} // verus!
