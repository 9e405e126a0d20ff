use vstd::prelude::*;
use crate::arith::{add_bits, dot_bits, relu_bits, param_add, param_mul, relu};
use crate::error::NetworkError;
use crate::source::ParamSource;
use crate::stream::WeightCursor;

verus! {

/// One unit of a layer: a bias and one weight per input. It computes the
/// weighted sum of an input vector plus the bias, then the rectified-linear
/// activation.
#[derive(Clone, Debug)]
pub struct Neuron {
    pub bias: u32,
    pub weights: Vec<u32>,
}

impl Neuron {
    /// A neuron is well formed when it accepts at least one input.
    pub open spec fn wf(self) -> bool {
        self.weights@.len() >= 1
    }

    /// How many inputs the neuron accepts.
    pub open spec fn fan_in(self) -> nat {
        self.weights@.len()
    }

    /// The flat form of the neuron: the bias first, then the weights in
    /// input order.
    pub open spec fn flat(self) -> Seq<u32> {
        seq![self.bias] + self.weights@
    }

    /// What the neuron outputs on an input vector of matching length: the
    /// weighted sum, plus the bias, through the rectified-linear activation.
    pub open spec fn out_bits(self, xs: Seq<u32>) -> u32 {
        relu_bits(add_bits(self.bias, dot_bits(xs, self.weights@)))
    }

    /// Build a neuron from its parameters. Fails when the weight vector is
    /// empty, as a neuron must accept at least one input.
    pub fn new(bias: u32, weights: Vec<u32>) -> (r: Result<Neuron, NetworkError>)
        ensures
            r is Ok <==> weights@.len() >= 1,
            r is Err ==> r == Err::<Neuron, NetworkError>(NetworkError::EmptyWeights),
            r is Ok ==> r->Ok_0.bias == bias && r->Ok_0.weights@ == weights@,
    {
        if weights.len() == 0 {
            Err(NetworkError::EmptyWeights)
        } else {
            Ok(Neuron { bias, weights })
        }
    }

    /// Build a neuron by drawing `input_size + 1` values from the source:
    /// the bias first, then the weights in input order. Fails when
    /// `input_size` is zero.
    pub fn random<S: ParamSource>(source: &mut S, input_size: usize) -> (r: Result<
        Neuron,
        NetworkError,
    >)
        ensures
            r is Ok <==> input_size >= 1,
            r is Err ==> r == Err::<Neuron, NetworkError>(NetworkError::EmptyWeights),
            r is Ok ==> r->Ok_0.wf() && r->Ok_0.fan_in() == input_size,
    {
        if input_size == 0 {
            return Err(NetworkError::EmptyWeights);
        }
        let bias = source.next_param();
        let mut weights: Vec<u32> = Vec::new();
        let mut i: usize = 0;
        while i < input_size
            invariant
                i <= input_size,
                weights@.len() == i,
            decreases input_size - i,
        {
            weights.push(source.next_param());
            i = i + 1;
        }
        Ok(Neuron { bias, weights })
    }

    /// Build a neuron by consuming exactly `input_size + 1` values from the
    /// cursor, the bias first, then the weights in input order. Fails with
    /// an empty-weights error when `input_size` is zero and with an
    /// underflow error when fewer than `input_size + 1` values remain; in
    /// both cases the cursor is left unchanged.
    pub fn from_weights(input_size: usize, ws: &mut WeightCursor) -> (r: Result<
        Neuron,
        NetworkError,
    >)
        ensures
            input_size == 0 ==> r == Err::<Neuron, NetworkError>(NetworkError::EmptyWeights)
                && *final(ws) == *old(ws),
            input_size >= 1 && old(ws).remaining().len() < input_size + 1 ==> r == Err::<
                Neuron,
                NetworkError,
            >(NetworkError::TooFewWeights) && *final(ws) == *old(ws),
            input_size >= 1 && old(ws).remaining().len() >= input_size + 1 ==> {
                &&& r is Ok
                &&& r->Ok_0.wf()
                &&& r->Ok_0.fan_in() == input_size
                &&& r->Ok_0.flat() == old(ws).remaining().take(input_size + 1)
                &&& final(ws).remaining() == old(ws).remaining().skip(input_size + 1)
            },
    {
        let ghost rem0: Seq<u32> = ws.remaining();
        if input_size == 0 {
            return Err(NetworkError::EmptyWeights);
        }
        if ws.len_remaining() <= input_size {
            return Err(NetworkError::TooFewWeights);
        }
        let bias = ws.next_value();
        proof {
            assert(ws.remaining() =~= rem0.skip(1));
        }
        let mut weights: Vec<u32> = Vec::new();
        proof {
            assert(weights@ =~= rem0.subrange(1, 1));
        }
        let mut i: usize = 0;
        while i < input_size
            invariant
                i <= input_size,
                rem0.len() >= input_size + 1,
                bias == rem0[0],
                weights@.len() == i,
                weights@ == rem0.subrange(1, i + 1),
                ws.remaining() == rem0.skip(i + 1),
            decreases input_size - i,
        {
            proof {
                assert(ws.remaining().len() == rem0.len() - i - 1);
            }
            let w = ws.next_value();
            proof {
                assert(w == rem0[i + 1]);
                assert(weights@.push(w) =~= rem0.subrange(1, i + 2));
                assert(ws.remaining() =~= rem0.skip(i + 2));
            }
            weights.push(w);
            i = i + 1;
        }
        let n = Neuron { bias, weights };
        proof {
            assert(n.flat() =~= rem0.take(input_size + 1));
        }
        Ok(n)
    }

    /// Compute the neuron's output for one input vector. Fails when the
    /// input's length differs from the neuron's fan-in; otherwise returns
    /// the rectified weighted sum plus bias.
    pub fn propogate(&self, input: &Vec<u32>) -> (r: Result<u32, NetworkError>)
        ensures
            r is Ok <==> input@.len() == self.fan_in(),
            r is Err ==> r == Err::<u32, NetworkError>(NetworkError::ShapeMismatch),
            r is Ok ==> r->Ok_0 == self.out_bits(input@),
    {
        if input.len() != self.weights.len() {
            return Err(NetworkError::ShapeMismatch);
        }
        let mut acc: u32 = 0;
        let mut i: usize = 0;
        while i < input.len()
            invariant
                i <= input@.len(),
                input@.len() == self.weights@.len(),
                acc == crate::arith::dot_prefix_bits(input@, self.weights@, i as int),
            decreases input@.len() - i,
        {
            let p = param_mul(input[i], self.weights[i]);
            acc = param_add(acc, p);
            i = i + 1;
        }
        Ok(relu(param_add(self.bias, acc)))
    }
}

} // verus!
