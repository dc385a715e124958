//! Model descriptor: the opaque byte payload of trained parameters that the
//! fetch client obtains from the server. The core interprets no structure in
//! it; it exists as the integration point between the fetch path and any
//! future training or inference path.

use vstd::prelude::*;

verus! {

/// A trained-model descriptor: the raw `weights` bytes as the server sent
/// them, uninterpreted by this core.
pub struct ModelDescriptor {
    pub weights: Vec<u8>,
}

impl ModelDescriptor {
    /// Wraps a weight payload, byte for byte.
    pub fn new(weights: Vec<u8>) -> (r: ModelDescriptor)
        ensures
            r.weights@ == weights@,
    {
        ModelDescriptor { weights }
    }
}

/// Why a model fetch failed: the request could not complete, or the response
/// body could not be decoded into the expected shape. A fetch failure is
/// local to the fetch path and never disturbs drawing or sampling.
#[derive(Clone, Copy, Debug, PartialEq, Eq)]
pub enum FetchError {
    Network,
    Decode,
}

} // verus!
