use vstd::prelude::*;
use rustc_apfloat::Float;

verus! {

// Every network parameter and every signal is carried as the bit pattern of
// an IEEE 754 single-precision number, held in a `u32`. The two rounding
// operations, addition and multiplication, are performed by an outside
// software implementation of that arithmetic; their results are named below.
// The activation function needs no rounding and is defined and verified here
// directly on the bit patterns.

pub uninterp spec fn add_bits(a: u32, b: u32) -> u32;

pub uninterp spec fn mul_bits(a: u32, b: u32) -> u32;

/// Relies on rustc_apfloat's IEEE single-precision addition
/// (`ieee::Single`, round to nearest, ties to even): the sum's bit pattern
/// is a function of the two operand bit patterns alone.
#[verifier::external_body]
pub(crate) fn param_add(a: u32, b: u32) -> (r: u32)
    ensures
        r == add_bits(a, b),
{
    let x = rustc_apfloat::ieee::Single::from_bits(a as u128);
    let y = rustc_apfloat::ieee::Single::from_bits(b as u128);
    (x + y).value.to_bits() as u32
}

/// Relies on rustc_apfloat's IEEE single-precision multiplication
/// (`ieee::Single`, round to nearest, ties to even): the product's bit
/// pattern is a function of the two operand bit patterns alone.
#[verifier::external_body]
pub(crate) fn param_mul(a: u32, b: u32) -> (r: u32)
    ensures
        r == mul_bits(a, b),
{
    let x = rustc_apfloat::ieee::Single::from_bits(a as u128);
    let y = rustc_apfloat::ieee::Single::from_bits(b as u128);
    (x * y).value.to_bits() as u32
}

/// The bit pattern encodes a NaN: maximal exponent, nonzero fraction.
pub open spec fn is_nan_bits(x: u32) -> bool {
    (x >> 23u32) & 0xffu32 == 0xffu32 && x & 0x7f_ffffu32 != 0u32
}

/// The bit pattern encodes a number strictly greater than zero:
/// sign bit clear, magnitude nonzero, and not a NaN.
pub open spec fn is_positive_bits(x: u32) -> bool {
    x >> 31u32 == 0u32 && x & 0x7fff_ffffu32 != 0u32 && !is_nan_bits(x)
}

/// Rectified-linear activation on a bit pattern: the value itself when it is
/// strictly positive, positive zero otherwise (a NaN is mapped to zero too,
/// as taking the maximum of a number and a NaN yields the number).
pub open spec fn relu_bits(x: u32) -> u32 {
    if is_positive_bits(x) {
        x
    } else {
        0u32
    }
}

/// Apply the rectified-linear activation to one bit pattern.
pub fn relu(x: u32) -> (r: u32)
    ensures
        r == relu_bits(x),
{
    let exp: u32 = (x >> 23u32) & 0xffu32;
    let frac: u32 = x & 0x7f_ffffu32;
    let nan: bool = exp == 0xffu32 && frac != 0u32;
    if x >> 31u32 == 0u32 && x & 0x7fff_ffffu32 != 0u32 && !nan {
        x
    } else {
        0u32
    }
}

/// Left fold of the products `xs[i] * ws[i]` for `i < k`, starting from
/// positive zero: the weighted sum a neuron computes over its first `k`
/// inputs, in the rounding order of a sequential accumulation.
pub open spec fn dot_prefix_bits(xs: Seq<u32>, ws: Seq<u32>, k: int) -> u32
    decreases k,
{
    if k <= 0 {
        0u32
    } else {
        add_bits(dot_prefix_bits(xs, ws, k - 1), mul_bits(xs[k - 1], ws[k - 1]))
    }
}

/// The full weighted sum of an input vector against a weight vector.
pub open spec fn dot_bits(xs: Seq<u32>, ws: Seq<u32>) -> u32 {
    dot_prefix_bits(xs, ws, xs.len() as int)
}

} // verus!
