use vstd::prelude::*;
use crate::error::NetworkError;
use crate::layer::{Layer, genome_span};
use crate::source::ParamSource;
use crate::stream::WeightCursor;
use crate::topology::{LayerTopology, topo_counts};

verus! {

/// An ordered stack of layers in which each layer's fan-out equals the next
/// layer's fan-in. Propagation threads an input vector through every layer
/// in order; the whole tree is immutable once built.
#[derive(Clone, Debug)]
pub struct Network {
    pub layers: Vec<Layer>,
}

/// The fan-in of layer `i` in a stack: the previous layer's neuron count,
/// or for the first layer the fan-in of its own neurons.
pub open spec fn fan_in_of(ls: Seq<Layer>, i: int) -> nat {
    if i == 0 {
        ls[0].neurons@[0].fan_in()
    } else {
        ls[i - 1].count()
    }
}

/// The layer sizes of a stack: the first layer's fan-in, then each
/// layer's neuron count in order.
pub open spec fn topo_of(ls: Seq<Layer>) -> Seq<nat> {
    Seq::new(
        ls.len() + 1,
        |i: int|
            if i == 0 {
                fan_in_of(ls, 0)
            } else {
                ls[i - 1].count()
            },
    )
}

/// A stack of layers is well formed when it is nonempty, every layer has at
/// least one neuron, and every layer's neurons read exactly as many inputs
/// as the layer before it produces.
pub open spec fn layers_wf(ls: Seq<Layer>) -> bool {
    &&& ls.len() >= 1
    &&& forall|i: int|
        0 <= i < ls.len() ==> (#[trigger] ls[i]).count() >= 1 && ls[i].wf(fan_in_of(ls, i))
}

/// The flat form of the first `k` layers, in layer order.
pub open spec fn net_flat_prefix(ls: Seq<Layer>, k: int) -> Seq<u32>
    decreases k,
{
    if k <= 0 {
        Seq::empty()
    } else {
        net_flat_prefix(ls, k - 1) + ls[k - 1].flat()
    }
}

/// The vector that comes out of the first `k` layers when `xs` goes into
/// the first one.
pub open spec fn out_through(ls: Seq<Layer>, xs: Seq<u32>, k: int) -> Seq<u32>
    decreases k,
{
    if k <= 0 {
        xs
    } else {
        ls[k - 1].out_bits(out_through(ls, xs, k - 1))
    }
}

/// How many flat values a network with the given layer sizes occupies: for
/// each adjacent pair of entries, one bias and one weight per input for
/// each neuron. Only the first `k` entries are counted.
pub open spec fn genome_total(counts: Seq<nat>, k: int) -> nat
    decreases k,
{
    if k <= 1 {
        0
    } else {
        genome_total(counts, k - 1) + genome_span(counts[k - 2], counts[k - 1])
    }
}

/// Counting a longer prefix of the layer sizes never shrinks the genome
/// length.
pub proof fn lemma_genome_total_mono(counts: Seq<nat>, a: int, b: int)
    requires
        a <= b,
    ensures
        genome_total(counts, a) <= genome_total(counts, b),
    decreases b,
{
    if b > 1 && a < b {
        lemma_genome_total_mono(counts, a, b - 1);
    }
}

impl Network {
    /// The network is well formed: layers are nonempty and consecutive
    /// layers are shape-compatible.
    pub open spec fn wf(self) -> bool {
        layers_wf(self.layers@)
    }

    /// The layer sizes the network was built from: the first layer's
    /// fan-in, then each layer's neuron count in order.
    pub open spec fn topology(self) -> Seq<nat> {
        topo_of(self.layers@)
    }

    /// The flat form of the network: for each layer in order, for each
    /// neuron in order, the bias then the weights.
    pub open spec fn flat(self) -> Seq<u32> {
        net_flat_prefix(self.layers@, self.layers@.len() as int)
    }

    /// What the network outputs on an input vector of the first layer's
    /// fan-in.
    pub open spec fn out_bits(self, xs: Seq<u32>) -> Seq<u32> {
        out_through(self.layers@, xs, self.layers@.len() as int)
    }

    /// Package an already shape-compatible stack of layers as a network.
    /// The two builders are the supported entry points; this constructor
    /// trusts the caller to have established compatibility.
    pub fn new(layers: Vec<Layer>) -> (r: Network)
        requires
            layers_wf(layers@),
        ensures
            r.layers@ == layers@,
            r.wf(),
    {
        Network { layers }
    }

    /// Build a network of random parameters over the given layer sizes,
    /// drawing from the source sequentially: layer by layer, neuron by
    /// neuron, each neuron its bias first and then its weights. Fails when
    /// fewer than two sizes are given, or when any size is zero.
    pub fn random<S: ParamSource>(source: &mut S, topology: &Vec<LayerTopology>) -> (r: Result<
        Network,
        NetworkError,
    >)
        ensures
            topology@.len() < 2 ==> r == Err::<Network, NetworkError>(
                NetworkError::DegenerateTopology,
            ),
            topology@.len() >= 2 && (exists|i: int|
                0 <= i < topology@.len() && topology@[i].neurons == 0) ==> r == Err::<
                Network,
                NetworkError,
            >(NetworkError::EmptyWeights),
            topology@.len() >= 2 && (forall|i: int|
                0 <= i < topology@.len() ==> (#[trigger] topology@[i]).neurons >= 1) ==> {
                &&& r is Ok
                &&& r->Ok_0.wf()
                &&& r->Ok_0.topology() == topo_counts(topology@)
            },
    {
        if topology.len() < 2 {
            return Err(NetworkError::DegenerateTopology);
        }
        let mut i: usize = 0;
        while i < topology.len()
            invariant
                topology@.len() >= 2,
                i <= topology@.len(),
                forall|j: int| 0 <= j < i ==> (#[trigger] topology@[j]).neurons >= 1,
            decreases topology@.len() - i,
        {
            if topology[i].neurons == 0 {
                proof {
                    assert(topology@[i as int].neurons == 0);
                }
                return Err(NetworkError::EmptyWeights);
            }
            i = i + 1;
        }
        let mut layers: Vec<Layer> = Vec::new();
        let mut j: usize = 0;
        while j < topology.len() - 1
            invariant
                topology@.len() >= 2,
                forall|i: int| 0 <= i < topology@.len() ==> (#[trigger] topology@[i]).neurons >= 1,
                j <= topology@.len() - 1,
                layers@.len() == j,
                forall|i: int|
                    0 <= i < j ==> (#[trigger] layers@[i]).count() == topology@[i + 1].neurons
                        && layers@[i].wf(topology@[i].neurons as nat),
            decreases topology@.len() - 1 - j,
        {
            let l = match Layer::random(source, topology[j].neurons, topology[j + 1].neurons) {
                Ok(l) => l,
                Err(e) => {
                    return Err(e);
                },
            };
            layers.push(l);
            j = j + 1;
        }
        let n = Network { layers };
        proof {
            lemma_network_shape(n.layers@, topology@);
            lemma_topology_matches(n, topology@);
        }
        Ok(n)
    }

    /// Build a network over the given layer sizes by consuming the flat
    /// sequence in order: layer by layer, neuron by neuron, each neuron its
    /// bias first and then its weights. Fails when fewer than two sizes are
    /// given, when any size is zero, when the sequence runs out before the
    /// shape is full, or when values are left over once it is.
    pub fn from_weights(topology: &Vec<LayerTopology>, weights: Vec<u32>) -> (r: Result<
        Network,
        NetworkError,
    >)
        ensures
            topology@.len() < 2 ==> r == Err::<Network, NetworkError>(
                NetworkError::DegenerateTopology,
            ),
            topology@.len() >= 2 && (exists|i: int|
                0 <= i < topology@.len() && topology@[i].neurons == 0) ==> r == Err::<
                Network,
                NetworkError,
            >(NetworkError::EmptyWeights),
            topology@.len() >= 2 && (forall|i: int|
                0 <= i < topology@.len() ==> (#[trigger] topology@[i]).neurons >= 1) ==> {
                let need = genome_total(topo_counts(topology@), topology@.len() as int);
                &&& weights@.len() < need ==> r == Err::<Network, NetworkError>(
                    NetworkError::TooFewWeights,
                )
                &&& weights@.len() > need ==> r == Err::<Network, NetworkError>(
                    NetworkError::TooManyWeights,
                )
                &&& weights@.len() == need ==> {
                    &&& r is Ok
                    &&& r->Ok_0.wf()
                    &&& r->Ok_0.topology() == topo_counts(topology@)
                    &&& r->Ok_0.flat() == weights@
                }
            },
    {
        if topology.len() < 2 {
            return Err(NetworkError::DegenerateTopology);
        }
        let mut i: usize = 0;
        while i < topology.len()
            invariant
                topology@.len() >= 2,
                i <= topology@.len(),
                forall|j: int| 0 <= j < i ==> (#[trigger] topology@[j]).neurons >= 1,
            decreases topology@.len() - i,
        {
            if topology[i].neurons == 0 {
                proof {
                    assert(topology@[i as int].neurons == 0);
                }
                return Err(NetworkError::EmptyWeights);
            }
            i = i + 1;
        }
        let ghost all: Seq<u32> = weights@;
        let ghost counts: Seq<nat> = topo_counts(topology@);
        let mut cur = WeightCursor::new(weights);
        let mut layers: Vec<Layer> = Vec::new();
        let mut j: usize = 0;
        proof {
            assert(cur.remaining() =~= all.skip(0));
            assert(net_flat_prefix(layers@, 0) =~= all.take(0));
        }
        while j < topology.len() - 1
            invariant
                topology@.len() >= 2,
                all == weights@,
                counts == topo_counts(topology@),
                forall|i: int| 0 <= i < topology@.len() ==> (#[trigger] topology@[i]).neurons >= 1,
                j <= topology@.len() - 1,
                layers@.len() == j,
                forall|i: int|
                    0 <= i < j ==> (#[trigger] layers@[i]).count() == topology@[i + 1].neurons
                        && layers@[i].wf(topology@[i].neurons as nat),
                genome_total(counts, j + 1) <= all.len(),
                net_flat_prefix(layers@, j as int) == all.take(genome_total(counts, j + 1) as int),
                cur.remaining() == all.skip(genome_total(counts, j + 1) as int),
            decreases topology@.len() - 1 - j,
        {
            let ghost consumed: int = genome_total(counts, j + 1) as int;
            let ghost span: nat = genome_span(
                topology@[j as int].neurons as nat,
                topology@[j + 1].neurons as nat,
            );
            proof {
                assert(counts[j as int] == topology@[j as int].neurons as nat);
                assert(counts[j + 1] == topology@[j + 1].neurons as nat);
                assert(genome_total(counts, j + 2) == genome_total(counts, j + 1) + genome_span(
                    counts[j as int],
                    counts[j + 1],
                ));
                assert(genome_total(counts, j + 2) == genome_total(counts, j + 1) + span);
            }
            let ghost prev = layers@;
            let l = match Layer::from_weights(topology[j].neurons, topology[j + 1].neurons,
                &mut cur) {
                Ok(l) => l,
                Err(e) => {
                    proof {
                        assert(topology@[j as int].neurons >= 1);
                        assert(cur.remaining().len() < span);
                        assert(all.len() < genome_total(counts, j + 2));
                        lemma_genome_total_mono(counts, j + 2, topology@.len() as int);
                        assert(all.len() < genome_total(counts, topology@.len() as int));
                    }
                    return Err(NetworkError::TooFewWeights);
                },
            };
            proof {
                assert(l.flat() == all.skip(consumed).take(span as int));
                assert(cur.remaining() =~= all.skip(consumed + span));
                assert(net_flat_prefix(prev.push(l), j + 1) == net_flat_prefix(prev, j as int)
                    + l.flat()) by {
                    lemma_net_flat_prefix_same(prev, prev.push(l), j as int);
                }
                assert(all.take(consumed) + all.skip(consumed).take(span as int) =~= all.take(
                    consumed + span,
                ));
            }
            layers.push(l);
            j = j + 1;
        }
        let leftover = cur.len_remaining();
        if leftover > 0 {
            proof {
                assert(all.len() > genome_total(counts, topology@.len() as int));
            }
            return Err(NetworkError::TooManyWeights);
        }
        let n = Network { layers };
        proof {
            assert(all.len() == genome_total(counts, topology@.len() as int));
            lemma_network_shape(n.layers@, topology@);
            lemma_topology_matches(n, topology@);
            assert(n.flat() =~= all);
        }
        Ok(n)
    }

    /// Thread an input vector through every layer in order and return the
    /// final layer's output vector. Fails when the input's length differs
    /// from the first layer's fan-in.
    pub fn propogate(&self, input: Vec<u32>) -> (r: Result<Vec<u32>, NetworkError>)
        requires
            self.wf(),
        ensures
            r is Ok <==> input@.len() == fan_in_of(self.layers@, 0),
            r is Err ==> r == Err::<Vec<u32>, NetworkError>(NetworkError::ShapeMismatch),
            r is Ok ==> r->Ok_0@ == self.out_bits(input@) && r->Ok_0@.len() == self.layers@[
                self.layers@.len() - 1].count(),
    {
        let ghost xs: Seq<u32> = input@;
        let mut cur = input;
        let mut k: usize = 0;
        while k < self.layers.len()
            invariant
                self.wf(),
                xs == input@,
                k <= self.layers@.len(),
                k >= 1 ==> xs.len() == fan_in_of(self.layers@, 0),
                cur@ == out_through(self.layers@, xs, k as int),
                cur@.len() == if k == 0 {
                    xs.len()
                } else {
                    self.layers@[k - 1].count()
                },
            decreases self.layers@.len() - k,
        {
            let ghost cur_v: Seq<u32> = cur@;
            let next = match self.layers[k].propogate(cur) {
                Ok(v) => v,
                Err(_) => {
                    proof {
                        assert(self.layers@[k as int].count() >= 1);
                        assert(self.layers@[k as int].wf(fan_in_of(self.layers@, k as int)));
                        if k >= 1 || cur_v.len() == fan_in_of(self.layers@, 0) {
                            assert(fan_in_of(self.layers@, k as int) == cur_v.len());
                            assert forall|i: int|
                                0 <= i < self.layers@[k as int].neurons@.len() implies (
                            #[trigger] self.layers@[k as int].neurons@[i]).fan_in()
                                == cur_v.len() by {}
                            assert(false);
                        }
                    }
                    return Err(NetworkError::ShapeMismatch);
                },
            };
            proof {
                if k == 0 {
                    assert(self.layers@[0].count() >= 1);
                    assert(self.layers@[0].wf(fan_in_of(self.layers@, 0)));
                    assert(self.layers@[0].neurons@[0].fan_in() == cur_v.len());
                }
            }
            cur = next;
            k = k + 1;
        }
        Ok(cur)
    }

    /// Flatten the network into one sequence of parameters: for each layer
    /// in order, for each neuron in order, the bias first and then the
    /// weights in input order. This is the exact sequence `from_weights`
    /// consumes.
    pub fn weights(&self) -> (r: Vec<u32>)
        ensures
            r@ == self.flat(),
    {
        let mut out: Vec<u32> = Vec::new();
        let mut k: usize = 0;
        proof {
            assert(out@ =~= net_flat_prefix(self.layers@, 0));
        }
        while k < self.layers.len()
            invariant
                k <= self.layers@.len(),
                out@ == net_flat_prefix(self.layers@, k as int),
            decreases self.layers@.len() - k,
        {
            let ghost at_layer = out@;
            let ghost ns = self.layers@[k as int].neurons@;
            let mut m: usize = 0;
            proof {
                assert(at_layer + Layer::flat_prefix(ns, 0) =~= at_layer);
            }
            while m < self.layers[k].neurons.len()
                invariant
                    k < self.layers@.len(),
                    ns == self.layers@[k as int].neurons@,
                    m <= ns.len(),
                    at_layer == net_flat_prefix(self.layers@, k as int),
                    out@ == at_layer + Layer::flat_prefix(ns, m as int),
                decreases ns.len() - m,
            {
                let ghost at_neuron = out@;
                out.push(self.layers[k].neurons[m].bias);
                let mut w: usize = 0;
                proof {
                    assert(out@ =~= at_neuron + seq![ns[m as int].bias] + ns[
                        m as int].weights@.take(0));
                }
                while w < self.layers[k].neurons[m].weights.len()
                    invariant
                        k < self.layers@.len(),
                        ns == self.layers@[k as int].neurons@,
                        m < ns.len(),
                        w <= ns[m as int].weights@.len(),
                        out@ == at_neuron + seq![ns[m as int].bias] + ns[m as int].weights@.take(
                            w as int,
                        ),
                    decreases ns[m as int].weights@.len() - w,
                {
                    out.push(self.layers[k].neurons[m].weights[w]);
                    proof {
                        assert(out@ =~= at_neuron + seq![ns[m as int].bias] + ns[
                            m as int].weights@.take(w + 1));
                    }
                    w = w + 1;
                }
                proof {
                    assert(out@ =~= at_neuron + ns[m as int].flat());
                    assert(Layer::flat_prefix(ns, m + 1) == Layer::flat_prefix(ns, m as int) + ns[
                        m as int].flat());
                    assert(out@ =~= at_layer + Layer::flat_prefix(ns, m + 1));
                }
                m = m + 1;
            }
            proof {
                assert(self.layers@[k as int].flat() == Layer::flat_prefix(ns, ns.len() as int));
                assert(net_flat_prefix(self.layers@, k + 1) == net_flat_prefix(
                    self.layers@,
                    k as int,
                ) + self.layers@[k as int].flat());
                assert(out@ =~= net_flat_prefix(self.layers@, k + 1));
            }
            k = k + 1;
        }
        out
    }
}

/// A network whose layer `i` has `t[i + 1]` neurons over `t[i]` inputs has
/// exactly the sizes of `t` as its topology.
pub proof fn lemma_topology_matches(n: Network, t: Seq<LayerTopology>)
    requires
        t.len() >= 2,
        n.layers@.len() == t.len() - 1,
        forall|i: int| 0 <= i < t.len() ==> (#[trigger] t[i]).neurons >= 1,
        forall|i: int|
            0 <= i < n.layers@.len() ==> (#[trigger] n.layers@[i]).count() == t[i + 1].neurons
                && n.layers@[i].wf(t[i].neurons as nat),
    ensures
        n.topology() == topo_counts(t),
{
    assert(n.layers@[0].wf(t[0].neurons as nat));
    assert(n.layers@[0].count() >= 1);
    assert(n.layers@[0].neurons@[0].fan_in() == t[0].neurons as nat);
    assert forall|i: int| 0 <= i < n.topology().len() implies n.topology()[i] == topo_counts(t)[i]
    by {
        if i == 0 {
            assert(fan_in_of(n.layers@, 0) == t[0].neurons as nat);
        } else {
            assert(n.layers@[i - 1].count() == t[i].neurons);
        }
    }
    assert(n.topology() =~= topo_counts(t));
}

/// Two layer stacks that agree on their first `k` layers have the same flat
/// form over those layers.
pub proof fn lemma_net_flat_prefix_same(a: Seq<Layer>, b: Seq<Layer>, k: int)
    requires
        0 <= k <= a.len(),
        k <= b.len(),
        forall|i: int| 0 <= i < k ==> a[i] == b[i],
    ensures
        net_flat_prefix(a, k) == net_flat_prefix(b, k),
    decreases k,
{
    if k > 0 {
        lemma_net_flat_prefix_same(a, b, k - 1);
    }
}

/// A stack whose layer `i` has `t[i + 1]` neurons over `t[i]` inputs, for a
/// positive size list `t` of matching length, is well formed and has `t` as
/// its topology.
pub proof fn lemma_network_shape(ls: Seq<Layer>, t: Seq<LayerTopology>)
    requires
        t.len() >= 2,
        ls.len() == t.len() - 1,
        forall|i: int| 0 <= i < t.len() ==> (#[trigger] t[i]).neurons >= 1,
        forall|i: int|
            0 <= i < ls.len() ==> (#[trigger] ls[i]).count() == t[i + 1].neurons && ls[i].wf(
                t[i].neurons as nat,
            ),
    ensures
        layers_wf(ls),
{
    assert(ls[0].count() >= 1);
    assert(ls[0].wf(t[0].neurons as nat));
    assert(ls[0].neurons@[0].fan_in() == t[0].neurons as nat);
    assert(fan_in_of(ls, 0) == t[0].neurons as nat);
    assert forall|i: int| 0 <= i < ls.len() implies (#[trigger] ls[i]).count() >= 1 && ls[i].wf(
        fan_in_of(ls, i),
    ) by {
        if i == 0 {
            assert(ls[i].wf(fan_in_of(ls, i)));
        } else {
            assert(fan_in_of(ls, i) == ls[i - 1].count());
            assert(ls[i - 1].count() == t[i].neurons);
            assert(ls[i].wf(t[i].neurons as nat));
        }
    }
}

} // verus!
