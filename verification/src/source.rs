use vstd::prelude::*;

verus! {

/// A capability that yields one parameter per call, as the bit pattern of a
/// single-precision number, for random initialization. The caller supplies
/// it; nothing is assumed of the values it produces, so everything proved
/// about a randomly built network holds whatever the source yields.
pub trait ParamSource {
    /// Produce the next parameter.
    fn next_param(&mut self) -> u32;
}

} // verus!
