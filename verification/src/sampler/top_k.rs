//! Top-K filtering: keep the K highest logits.

use vstd::prelude::*;

use crate::sampler::{is_stable_reorder, no_nans, sort_logits_desc, sorted_desc, TokenLogit};

verus! {

/// Keeps only the top K tokens by logit value.
pub struct TopKSampler {
    /// How many entries survive; 0 disables the filter.
    pub k: usize,
}

impl TopKSampler {
    /// A top-K filter retaining the `k` highest-logit tokens.
    pub fn new(k: usize) -> (r: TopKSampler)
        ensures
            r.k == k,
    {
        TopKSampler { k }
    }

    /// Truncates the logits to the `k` highest.  A `k` of 0, or one at
    /// or above the current length, leaves the list untouched; otherwise
    /// what remains is the first `k` entries of a stable descending
    /// reordering (entries with equal logits keep their order).
    pub fn apply(&self, logits: &mut Vec<TokenLogit>)
        ensures
            (self.k == 0 || self.k >= old(logits)@.len()) ==> final(logits)@ == old(logits)@,
            (0 < self.k < old(logits)@.len()) ==> ({
                &&& final(logits)@.len() == self.k
                &&& exists|s: Seq<TokenLogit>, p: Seq<int>|
                    {
                        &&& #[trigger] s.to_multiset() == old(logits)@.to_multiset()
                        &&& s.len() == old(logits)@.len()
                        &&& #[trigger] is_stable_reorder(old(logits)@, s, p)
                        &&& (no_nans(old(logits)@) ==> sorted_desc(s))
                        &&& final(logits)@ == s.subrange(0, self.k as int)
                    }
            }),
    {
        if self.k == 0 || self.k >= logits.len() {
            return ;
        }
        sort_logits_desc(logits);
        let ghost s = logits@;
        let ghost p = choose|p: Seq<int>| is_stable_reorder(old(logits)@, s, p);
        logits.truncate(self.k);
        proof {
            assert(logits@ == s.subrange(0, self.k as int));
            assert(s.to_multiset() == old(logits)@.to_multiset() && s.len() == old(logits)@.len()
                && is_stable_reorder(old(logits)@, s, p) && (no_nans(old(logits)@)
                ==> sorted_desc(s)) && logits@ == s.subrange(0, self.k as int));
            assert(exists|s2: Seq<TokenLogit>, p2: Seq<int>|
                {
                    &&& #[trigger] s2.to_multiset() == old(logits)@.to_multiset()
                    &&& s2.len() == old(logits)@.len()
                    &&& #[trigger] is_stable_reorder(old(logits)@, s2, p2)
                    &&& (no_nans(old(logits)@) ==> sorted_desc(s2))
                    &&& logits@ == s2.subrange(0, self.k as int)
                });
        }
    }
}

} // verus!
