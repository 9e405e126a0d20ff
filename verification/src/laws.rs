use vstd::prelude::*;
use crate::arith::{add_bits, dot_bits, is_positive_bits, relu_bits};
use crate::layer::{Layer, genome_span};
use crate::network::{
    Network, fan_in_of, genome_total, layers_wf, net_flat_prefix, out_through, topo_of,
};
use crate::neuron::Neuron;

verus! {

/// Two neurons hold the same parameters: the same bias and the same
/// weights in the same order. Such neurons output the same value on every
/// input.
pub open spec fn same_params(a: Neuron, b: Neuron) -> bool {
    a.bias == b.bias && a.weights@ == b.weights@
}

/// Shape invariant: in a well-formed network with topology
/// `[n0, n1, ..., nk]` there are exactly `k` layers, layer `i` has
/// `n(i + 1)` neurons, and each neuron of layer `i` has exactly `n(i)`
/// weights.
pub proof fn lemma_shape_invariant(n: Network)
    requires
        n.wf(),
    ensures
        n.topology().len() == n.layers@.len() + 1,
        forall|i: int|
            0 <= i < n.layers@.len() ==> (#[trigger] n.layers@[i]).count() == n.topology()[i + 1],
        forall|i: int, m: int|
            0 <= i < n.layers@.len() && 0 <= m < n.layers@[i].neurons@.len() ==> (
            #[trigger] n.layers@[i].neurons@[m]).fan_in() == n.topology()[i],
{
    let ls = n.layers@;
    assert forall|i: int, m: int|
        0 <= i < ls.len() && 0 <= m < ls[i].neurons@.len() implies (
    #[trigger] ls[i].neurons@[m]).fan_in() == n.topology()[i] by {
        assert(ls[i].count() >= 1);
        assert(ls[i].wf(fan_in_of(ls, i)));
        assert(ls[i].neurons@[m].fan_in() == fan_in_of(ls, i));
    }
}

/// The flat form of the first `k` layers of a well-formed stack occupies
/// exactly the genome length of the first `k + 1` topology entries.
pub proof fn lemma_net_flat_prefix_len(ls: Seq<Layer>, k: int)
    requires
        layers_wf(ls),
        0 <= k <= ls.len(),
    ensures
        net_flat_prefix(ls, k).len() == genome_total(topo_of(ls), k + 1),
    decreases k,
{
    if k > 0 {
        lemma_net_flat_prefix_len(ls, k - 1);
        assert(ls[k - 1].count() >= 1);
        assert(ls[k - 1].wf(fan_in_of(ls, k - 1)));
        Layer::lemma_flat_prefix_len(
            ls[k - 1].neurons@,
            fan_in_of(ls, k - 1),
            ls[k - 1].neurons@.len() as int,
        );
        assert(topo_of(ls)[k - 1] == fan_in_of(ls, k - 1));
        assert(topo_of(ls)[k] == ls[k - 1].count());
        assert(genome_total(topo_of(ls), k + 1) == genome_total(topo_of(ls), k) + genome_span(
            topo_of(ls)[k - 1],
            topo_of(ls)[k],
        ));
    }
}

/// Flatten length law: the flat form of a well-formed network holds
/// exactly `sum over layers of neurons_in_layer * (fan_in_of_layer + 1)`
/// values, the genome length of its topology.
pub proof fn lemma_flatten_length(n: Network)
    requires
        n.wf(),
    ensures
        n.flat().len() == genome_total(n.topology(), n.topology().len() as int),
{
    lemma_net_flat_prefix_len(n.layers@, n.layers@.len() as int);
}

/// Neurons over a shared fan-in with the same flat prefix hold, pairwise,
/// the same parameters.
pub proof fn lemma_layer_prefix_inj(na: Seq<Neuron>, nb: Seq<Neuron>, fan_in: nat, k: int)
    requires
        0 <= k <= na.len(),
        k <= nb.len(),
        forall|i: int| 0 <= i < k ==> (#[trigger] na[i]).fan_in() == fan_in,
        forall|i: int| 0 <= i < k ==> (#[trigger] nb[i]).fan_in() == fan_in,
        Layer::flat_prefix(na, k) == Layer::flat_prefix(nb, k),
    ensures
        forall|i: int| 0 <= i < k ==> same_params(#[trigger] na[i], nb[i]),
    decreases k,
{
    if k > 0 {
        Layer::lemma_flat_prefix_len(na, fan_in, k - 1);
        Layer::lemma_flat_prefix_len(nb, fan_in, k - 1);
        let l = ((k - 1) * (fan_in + 1)) as int;
        assert(Layer::flat_prefix(na, k - 1) =~= Layer::flat_prefix(na, k).take(l));
        assert(Layer::flat_prefix(nb, k - 1) =~= Layer::flat_prefix(nb, k).take(l));
        lemma_layer_prefix_inj(na, nb, fan_in, k - 1);
        assert(na[k - 1].flat() =~= Layer::flat_prefix(na, k).skip(l));
        assert(nb[k - 1].flat() =~= Layer::flat_prefix(nb, k).skip(l));
        assert(na[k - 1].bias == na[k - 1].flat()[0]);
        assert(nb[k - 1].bias == nb[k - 1].flat()[0]);
        assert(na[k - 1].weights@ =~= na[k - 1].flat().skip(1));
        assert(nb[k - 1].weights@ =~= nb[k - 1].flat().skip(1));
        assert(same_params(na[k - 1], nb[k - 1]));
    }
}

/// Layers of two well-formed stacks with the same topology and the same
/// flat prefix hold, layer by layer and neuron by neuron, the same
/// parameters.
pub proof fn lemma_stack_prefix_inj(a: Seq<Layer>, b: Seq<Layer>, k: int)
    requires
        layers_wf(a),
        layers_wf(b),
        a.len() == b.len(),
        topo_of(a) == topo_of(b),
        0 <= k <= a.len(),
        net_flat_prefix(a, k) == net_flat_prefix(b, k),
    ensures
        forall|j: int, i: int|
            0 <= j < k && 0 <= i < a[j].neurons@.len() ==> same_params(
                #[trigger] a[j].neurons@[i],
                b[j].neurons@[i],
            ),
        forall|j: int| 0 <= j < k ==> (#[trigger] a[j]).count() == b[j].count(),
    decreases k,
{
    if k > 0 {
        lemma_net_flat_prefix_len(a, k - 1);
        lemma_net_flat_prefix_len(b, k - 1);
        assert(topo_of(a)[k - 1] == fan_in_of(a, k - 1));
        assert(topo_of(a)[k] == a[k - 1].count());
        assert(topo_of(b)[k - 1] == fan_in_of(b, k - 1));
        assert(topo_of(b)[k] == b[k - 1].count());
        let l = genome_total(topo_of(a), k) as int;
        assert(net_flat_prefix(a, k - 1) =~= net_flat_prefix(a, k).take(l));
        assert(net_flat_prefix(b, k - 1) =~= net_flat_prefix(b, k).take(l));
        lemma_stack_prefix_inj(a, b, k - 1);
        assert(a[k - 1].flat() =~= net_flat_prefix(a, k).skip(l));
        assert(b[k - 1].flat() =~= net_flat_prefix(b, k).skip(l));
        assert(a[k - 1].count() >= 1 && a[k - 1].wf(fan_in_of(a, k - 1)));
        assert(b[k - 1].count() >= 1 && b[k - 1].wf(fan_in_of(b, k - 1)));
        lemma_layer_prefix_inj(
            a[k - 1].neurons@,
            b[k - 1].neurons@,
            fan_in_of(a, k - 1),
            a[k - 1].neurons@.len() as int,
        );
    }
}

/// Stacks whose first `k` layers hold pairwise the same parameters produce
/// the same vector from any input threaded through those layers.
pub proof fn lemma_out_through_same(a: Seq<Layer>, b: Seq<Layer>, xs: Seq<u32>, k: int)
    requires
        0 <= k <= a.len(),
        k <= b.len(),
        forall|j: int| 0 <= j < k ==> (#[trigger] a[j]).count() == b[j].count(),
        forall|j: int, i: int|
            0 <= j < k && 0 <= i < a[j].neurons@.len() ==> same_params(
                #[trigger] a[j].neurons@[i],
                b[j].neurons@[i],
            ),
    ensures
        out_through(a, xs, k) == out_through(b, xs, k),
    decreases k,
{
    if k > 0 {
        lemma_out_through_same(a, b, xs, k - 1);
        let ys = out_through(a, xs, k - 1);
        assert forall|i: int| 0 <= i < a[k - 1].neurons@.len() implies (#[trigger] a[k
            - 1].neurons@[i].out_bits(ys)) == b[k - 1].neurons@[i].out_bits(ys) by {
            assert(same_params(a[k - 1].neurons@[i], b[k - 1].neurons@[i]));
        }
        assert(a[k - 1].out_bits(ys) =~= b[k - 1].out_bits(ys));
    }
}

/// Round-trip law: well-formed networks with the same topology and the
/// same flat form — as a network rebuilt by `from_weights` from another's
/// `weights()` output is — produce the same output on every input vector.
pub proof fn lemma_round_trip(a: Network, b: Network, xs: Seq<u32>)
    requires
        a.wf(),
        b.wf(),
        a.topology() == b.topology(),
        a.flat() == b.flat(),
    ensures
        a.out_bits(xs) == b.out_bits(xs),
{
    assert(a.topology().len() == a.layers@.len() + 1);
    assert(b.topology().len() == b.layers@.len() + 1);
    assert(a.layers@.len() == b.layers@.len());
    lemma_stack_prefix_inj(a.layers@, b.layers@, a.layers@.len() as int);
    lemma_out_through_same(a.layers@, b.layers@, xs, a.layers@.len() as int);
}

/// Activation boundary: a neuron's output is its biased weighted sum
/// whenever that sum's bit pattern is strictly positive, and positive zero
/// otherwise — in particular whenever the sum is zero, negative, or not a
/// number.
pub proof fn lemma_activation_boundary(n: Neuron, xs: Seq<u32>)
    ensures
        is_positive_bits(add_bits(n.bias, dot_bits(xs, n.weights@))) ==> n.out_bits(xs) == add_bits(
            n.bias,
            dot_bits(xs, n.weights@),
        ),
        !is_positive_bits(add_bits(n.bias, dot_bits(xs, n.weights@))) ==> n.out_bits(xs) == 0u32,
{
    assert(n.out_bits(xs) == relu_bits(add_bits(n.bias, dot_bits(xs, n.weights@))));
}

} // verus!
