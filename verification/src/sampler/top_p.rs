//! Nucleus (top-p) filtering: the cutoff decision over cumulative
//! probabilities.

use vstd::prelude::*;

use crate::sampler::f32b_lt;

verus! {

/// Nucleus filter: keeps the smallest prefix of the sorted tokens whose
/// cumulative probability strictly exceeds the threshold.  The sorting
/// and the softmax live elsewhere; the cutoff decision below is exact.
pub struct TopPSampler {
    /// The probability threshold, as IEEE-32 bits.
    pub p_bits: u32,
}

/// The cutoff: one past the first index whose cumulative probability
/// strictly exceeds the threshold, or the whole length when none does;
/// never 0 for a non-empty list.
pub open spec fn spec_top_p_cutoff(cum: Seq<u32>, p: u32) -> int
    decreases cum.len(),
{
    if cum.len() == 0 {
        0
    } else if f32b_lt(p, cum[0]) {
        1
    } else {
        match spec_top_p_cutoff_rest(cum, p, 1) {
            Option::None => cum.len() as int,
            Option::Some(i) => i + 1,
        }
    }
}

/// First index at or past `from` whose cumulative probability strictly
/// exceeds the threshold.
pub open spec fn spec_top_p_cutoff_rest(cum: Seq<u32>, p: u32, from: int) -> Option<int>
    decreases cum.len() - from,
{
    if from < 0 || from >= cum.len() {
        Option::None
    } else if f32b_lt(p, cum[from]) {
        Option::Some(from)
    } else {
        spec_top_p_cutoff_rest(cum, p, from + 1)
    }
}

impl TopPSampler {
    /// A nucleus filter with the given threshold bits.
    pub fn new(p_bits: u32) -> (r: TopPSampler)
        ensures
            r.p_bits == p_bits,
    {
        TopPSampler { p_bits }
    }

    /// How many of the sorted tokens to keep, given the running
    /// cumulative probabilities (as bits): the smallest prefix whose sum
    /// strictly exceeds the threshold, at least 1, or everything when
    /// the sum never gets there.
    pub fn cutoff(&self, cum: &[u32]) -> (r: usize)
        requires
            cum@.len() > 0,
        ensures
            r == spec_top_p_cutoff(cum@, self.p_bits),
            1 <= r <= cum@.len(),
    {
        let n = cum.len();
        let mut i: usize = 0;
        while i < n
            invariant
                0 <= i <= n,
                n == cum@.len(),
                forall|k: int| 0 <= k < i ==> !f32b_lt(self.p_bits, #[trigger] cum@[k]),
            decreases n - i,
        {
            if crate::sampler::f32_bits_lt(self.p_bits, *vstd::slice::slice_index_get(cum, i)) {
                proof {
                    if i > 0 {
                        lemma_cutoff_rest_at(cum@, self.p_bits, 1, i as int);
                    }
                }
                return i + 1;
            }
            i += 1;
        }
        proof {
            lemma_cutoff_rest_none(cum@, self.p_bits, 1);
        }
        n
    }
}

/// With no hit in `[from, i)` and a hit at `i`, the scan finds `i`.
proof fn lemma_cutoff_rest_at(cum: Seq<u32>, p: u32, from: int, i: int)
    requires
        0 < from <= i < cum.len(),
        forall|k: int| 0 <= k < i ==> !f32b_lt(p, #[trigger] cum[k]),
        f32b_lt(p, cum[i]),
    ensures
        spec_top_p_cutoff_rest(cum, p, from) == Option::Some(i),
    decreases i - from,
{
    if from < i {
        lemma_cutoff_rest_at(cum, p, from + 1, i);
    }
}

/// With no hit anywhere, the scan finds nothing.
proof fn lemma_cutoff_rest_none(cum: Seq<u32>, p: u32, from: int)
    requires
        from >= 0,
        forall|k: int| 0 <= k < cum.len() ==> !f32b_lt(p, #[trigger] cum[k]),
    ensures
        spec_top_p_cutoff_rest(cum, p, from) is None,
    decreases cum.len() - from,
{
    if from < cum.len() {
        lemma_cutoff_rest_none(cum, p, from + 1);
    }
}

} // verus!
