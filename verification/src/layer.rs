use vstd::prelude::*;
use crate::error::NetworkError;
use crate::neuron::Neuron;
use crate::source::ParamSource;
use crate::stream::WeightCursor;

verus! {

/// An ordered sequence of neurons that all read the same input vector; the
/// layer's output is the sequence of their outputs, in neuron order.
#[derive(Clone, Debug)]
pub struct Layer {
    pub neurons: Vec<Neuron>,
}

/// How many flat values a layer of `count` neurons over `fan_in` inputs
/// occupies in a genome: one bias and `fan_in` weights per neuron.
pub open spec fn genome_span(fan_in: nat, count: nat) -> nat {
    count * (fan_in + 1)
}

impl Layer {
    /// How many neurons the layer has: its fan-out.
    pub open spec fn count(self) -> nat {
        self.neurons@.len()
    }

    /// Every neuron of the layer reads `fan_in` inputs, at least one.
    pub open spec fn wf(self, fan_in: nat) -> bool {
        fan_in >= 1 && forall|i: int|
            0 <= i < self.neurons@.len() ==> (#[trigger] self.neurons@[i]).fan_in() == fan_in
    }

    /// The flat form of the first `k` neurons, in neuron order.
    pub open spec fn flat_prefix(ns: Seq<Neuron>, k: int) -> Seq<u32>
        decreases k,
    {
        if k <= 0 {
            Seq::empty()
        } else {
            Self::flat_prefix(ns, k - 1) + ns[k - 1].flat()
        }
    }

    /// The flat form of the layer: each neuron's bias then weights, in
    /// neuron order.
    pub open spec fn flat(self) -> Seq<u32> {
        Self::flat_prefix(self.neurons@, self.neurons@.len() as int)
    }

    /// What the layer outputs on an input vector: each neuron's output, in
    /// neuron order.
    pub open spec fn out_bits(self, xs: Seq<u32>) -> Seq<u32> {
        Seq::new(self.neurons@.len(), |i: int| self.neurons@[i].out_bits(xs))
    }

    /// Package a sequence of neurons as a layer, in the order given. The
    /// order is significant: it assigns each neuron its index in the
    /// layer's output vector.
    pub fn new(neurons: Vec<Neuron>) -> (r: Layer)
        ensures
            r.neurons@ == neurons@,
    {
        Layer { neurons }
    }

    /// Build `output_size` neurons over `input_size` inputs each, drawing
    /// from the source sequentially in neuron order. Fails when a neuron
    /// would accept no input.
    pub fn random<S: ParamSource>(
        source: &mut S,
        input_size: usize,
        output_size: usize,
    ) -> (r: Result<Layer, NetworkError>)
        ensures
            r is Ok <==> (output_size == 0 || input_size >= 1),
            r is Err ==> r == Err::<Layer, NetworkError>(NetworkError::EmptyWeights),
            r is Ok ==> r->Ok_0.count() == output_size,
            r is Ok && input_size >= 1 ==> r->Ok_0.wf(input_size as nat),
    {
        if output_size >= 1 && input_size == 0 {
            return Err(NetworkError::EmptyWeights);
        }
        let mut neurons: Vec<Neuron> = Vec::new();
        let mut k: usize = 0;
        while k < output_size
            invariant
                k <= output_size,
                output_size >= 1 ==> input_size >= 1,
                neurons@.len() == k,
                forall|i: int|
                    0 <= i < k ==> (#[trigger] neurons@[i]).fan_in() == input_size,
            decreases output_size - k,
        {
            match Neuron::random(source, input_size) {
                Ok(n) => {
                    neurons.push(n);
                },
                Err(e) => {
                    return Err(e);
                },
            }
            k = k + 1;
        }
        Ok(Layer { neurons })
    }

    /// Build `output_size` neurons by consuming the cursor sequentially in
    /// neuron order, each neuron its bias first and then its weights. Fails
    /// with an empty-weights error when a neuron would accept no input, and
    /// with an underflow error when fewer values remain than the layer
    /// needs; in both cases the cursor is left unchanged.
    pub fn from_weights(
        input_size: usize,
        output_size: usize,
        ws: &mut WeightCursor,
    ) -> (r: Result<Layer, NetworkError>)
        ensures
            output_size >= 1 && input_size == 0 ==> r == Err::<Layer, NetworkError>(
                NetworkError::EmptyWeights,
            ) && *final(ws) == *old(ws),
            (output_size == 0 || input_size >= 1) && old(ws).remaining().len() < genome_span(
                input_size as nat,
                output_size as nat,
            ) ==> r == Err::<Layer, NetworkError>(NetworkError::TooFewWeights) && *final(ws)
                == *old(ws),
            (output_size == 0 || input_size >= 1) && old(ws).remaining().len() >= genome_span(
                input_size as nat,
                output_size as nat,
            ) ==> {
                &&& r is Ok
                &&& r->Ok_0.count() == output_size
                &&& (input_size >= 1 ==> r->Ok_0.wf(input_size as nat))
                &&& r->Ok_0.flat() == old(ws).remaining().take(
                    genome_span(input_size as nat, output_size as nat) as int,
                )
                &&& final(ws).remaining() == old(ws).remaining().skip(
                    genome_span(input_size as nat, output_size as nat) as int,
                )
            },
    {
        let ghost rem0: Seq<u32> = ws.remaining();
        if output_size == 0 {
            proof {
                assert(genome_span(input_size as nat, 0) == 0) by (nonlinear_arith);
                assert(ws.remaining() =~= rem0.skip(0));
                assert(Self::flat_prefix(Seq::<Neuron>::empty(), 0) =~= rem0.take(0));
            }
            let l = Layer { neurons: Vec::new() };
            proof {
                assert(l.flat() =~= rem0.take(0));
            }
            return Ok(l);
        }
        if input_size == 0 {
            return Err(NetworkError::EmptyWeights);
        }
        let have: usize = ws.len_remaining();
        proof {
            assert(rem0.len() <= usize::MAX);
        }
        let per: usize = match input_size.checked_add(1) {
            Some(p) => p,
            None => {
                proof {
                    assert(rem0.len() < genome_span(input_size as nat, output_size as nat))
                        by (nonlinear_arith)
                        requires
                            rem0.len() <= usize::MAX,
                            input_size == usize::MAX,
                            output_size >= 1,
                    ;
                }
                return Err(NetworkError::TooFewWeights);
            },
        };
        let needed: usize = match output_size.checked_mul(per) {
            Some(n) => n,
            None => {
                proof {
                    assert(rem0.len() < genome_span(input_size as nat, output_size as nat))
                        by (nonlinear_arith)
                        requires
                            rem0.len() <= usize::MAX,
                            per == input_size + 1,
                            output_size * per > usize::MAX,
                            genome_span(input_size as nat, output_size as nat) == output_size * (
                            input_size + 1),
                    ;
                }
                return Err(NetworkError::TooFewWeights);
            },
        };
        if have < needed {
            return Err(NetworkError::TooFewWeights);
        }
        let mut neurons: Vec<Neuron> = Vec::new();
        let mut k: usize = 0;
        let mut used: usize = 0;
        proof {
            assert(ws.remaining() =~= rem0.skip(0));
            assert(Self::flat_prefix(neurons@, 0) =~= rem0.take(0));
        }
        while k < output_size
            invariant
                1 <= input_size,
                per == input_size + 1,
                needed == output_size * per,
                rem0.len() >= needed,
                rem0.len() <= usize::MAX,
                k <= output_size,
                used == k * per,
                used <= needed,
                neurons@.len() == k,
                forall|i: int|
                    0 <= i < k ==> (#[trigger] neurons@[i]).fan_in() == input_size,
                Self::flat_prefix(neurons@, k as int) == rem0.take(used as int),
                ws.remaining() == rem0.skip(used as int),
            decreases output_size - k,
        {
            proof {
                assert((k + 1) * per <= output_size * per && k * per + per == (k + 1) * per)
                    by (nonlinear_arith)
                    requires
                        k < output_size,
                        per >= 1,
                ;
                assert(ws.remaining().len() >= per);
            }
            let ghost prev = neurons@;
            let n = match Neuron::from_weights(input_size, ws) {
                Ok(n) => n,
                Err(e) => {
                    proof {
                        assert(false);
                    }
                    return Err(e);
                },
            };
            proof {
                assert(n.flat() == rem0.skip(used as int).take(per as int));
                assert(ws.remaining() =~= rem0.skip(used + per));
                assert(Self::flat_prefix(prev.push(n), k + 1) == Self::flat_prefix(prev, k as int)
                    + n.flat()) by {
                    assert(prev.push(n).subrange(0, k as int) =~= prev);
                    assert(Self::flat_prefix(prev.push(n), k + 1) == Self::flat_prefix(
                        prev.push(n),
                        k as int,
                    ) + n.flat());
                    Self::lemma_flat_prefix_same(prev, prev.push(n), k as int);
                }
                assert(rem0.take(used as int) + rem0.skip(used as int).take(per as int)
                    =~= rem0.take(used + per));
            }
            neurons.push(n);
            k = k + 1;
            used = used + per;
        }
        let l = Layer { neurons };
        proof {
            assert(used == needed) by (nonlinear_arith)
                requires
                    used == k * per,
                    k == output_size,
                    needed == output_size * per,
            ;
        }
        Ok(l)
    }

    /// Two neuron sequences that agree on their first `k` entries have the
    /// same flat form over those entries.
    pub proof fn lemma_flat_prefix_same(a: Seq<Neuron>, b: Seq<Neuron>, k: int)
        requires
            0 <= k <= a.len(),
            k <= b.len(),
            forall|i: int| 0 <= i < k ==> a[i] == b[i],
        ensures
            Self::flat_prefix(a, k) == Self::flat_prefix(b, k),
        decreases k,
    {
        if k > 0 {
            Self::lemma_flat_prefix_same(a, b, k - 1);
        }
    }

    /// The flat form of `k` neurons over a shared fan-in occupies exactly
    /// `k * (fan_in + 1)` values.
    pub proof fn lemma_flat_prefix_len(ns: Seq<Neuron>, fan_in: nat, k: int)
        requires
            0 <= k <= ns.len(),
            forall|i: int| 0 <= i < k ==> (#[trigger] ns[i]).fan_in() == fan_in,
        ensures
            Self::flat_prefix(ns, k).len() == k * (fan_in + 1),
        decreases k,
    {
        if k > 0 {
            Self::lemma_flat_prefix_len(ns, fan_in, k - 1);
            assert(ns[k - 1].fan_in() == fan_in);
            assert(ns[k - 1].flat().len() == fan_in + 1);
            assert((k - 1) * (fan_in + 1) + (fan_in + 1) == k * (fan_in + 1)) by (nonlinear_arith);
        } else {
            assert(k * (fan_in + 1) == 0) by (nonlinear_arith)
                requires
                    k == 0,
            ;
        }
    }

    /// Compute each neuron's output for one shared input vector, in neuron
    /// order. Fails when any neuron's fan-in differs from the input's
    /// length.
    pub fn propogate(&self, input: Vec<u32>) -> (r: Result<Vec<u32>, NetworkError>)
        ensures
            r is Ok <==> (forall|i: int|
                0 <= i < self.neurons@.len() ==> (#[trigger] self.neurons@[i]).fan_in()
                    == input@.len()),
            r is Err ==> r == Err::<Vec<u32>, NetworkError>(NetworkError::ShapeMismatch),
            r is Ok ==> r->Ok_0@ == self.out_bits(input@),
    {
        let mut out: Vec<u32> = Vec::new();
        let mut k: usize = 0;
        while k < self.neurons.len()
            invariant
                k <= self.neurons@.len(),
                out@.len() == k,
                forall|i: int|
                    0 <= i < k ==> (#[trigger] self.neurons@[i]).fan_in() == input@.len(),
                forall|i: int|
                    0 <= i < k ==> out@[i] == (#[trigger] self.neurons@[i]).out_bits(input@),
            decreases self.neurons@.len() - k,
        {
            match self.neurons[k].propogate(&input) {
                Ok(v) => {
                    out.push(v);
                },
                Err(_) => {
                    proof {
                        assert(self.neurons@[k as int].fan_in() != input@.len());
                    }
                    return Err(NetworkError::ShapeMismatch);
                },
            }
            k = k + 1;
        }
        proof {
            assert(out@ =~= self.out_bits(input@));
        }
        Ok(out)
    }
}

} // verus!
