//! Core of a LLaMA-family transformer inference engine.
//!
//! The library covers the parts of the engine whose behaviour is a function
//! of plain bytes and integers: the GGUF container reader, shape algebra,
//! the BPE tokenizer, the key/value cache bookkeeping, and the ordering
//! logic of the sampling pipeline.  Floating-point arithmetic (the compute
//! backend and the numeric half of the forward pass) lives outside the
//! verified core; where a value of IEEE type flows through the logic here,
//! it is carried as its raw bit pattern.

pub mod dtype;
pub mod error;
pub mod gguf;
pub mod tokenizer;
pub mod model;
pub mod sampler;
pub mod generate;
pub mod shape;

use vstd::prelude::*;

verus! {

/// Equality of two byte slices, used throughout for metadata keys,
/// tensor names and token strings.
pub fn bytes_eq(a: &[u8], b: &[u8]) -> (r: bool)
    ensures
        r == (a@ == b@),
{
    if a.len() != b.len() {
        assert(a@.len() != b@.len());
        return false;
    }
    let mut i: usize = 0;
    while i < a.len()
        invariant
            0 <= i <= a@.len(),
            a@.len() == b@.len(),
            forall|j: int| 0 <= j < i ==> a@[j] == b@[j],
        decreases a@.len() - i,
    {
        if a[i] != b[i] {
            return false;
        }
        i += 1;
    }
    proof {
        assert(a@ =~= b@);
    }
    true
}

} // verus!
