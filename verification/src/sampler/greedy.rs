//! Selectors: greedy argmax, and the index logic of seeded categorical
//! sampling.

use vstd::prelude::*;

use crate::sampler::{f32b_is_nan, f32b_lt, lemma_f32b_lt_key, no_nans, TokenLogit};

verus! {

/// Greedy selector: keeps the single entry with the highest logit, the
/// leftmost on a tie.
pub struct GreedySampler;

impl GreedySampler {
    /// A greedy selector.
    pub fn new() -> (r: GreedySampler) {
        GreedySampler
    }

    /// Reduces the logits to the leftmost highest entry; an empty list
    /// stays empty.  The maximality claims hold when no logit is a NaN.
    pub fn apply(&self, logits: &mut Vec<TokenLogit>)
        ensures
            old(logits)@.len() == 0 ==> final(logits)@ == old(logits)@,
            old(logits)@.len() > 0 ==> ({
                &&& final(logits)@.len() == 1
                &&& exists|i: int|
                    {
                        &&& 0 <= i < old(logits)@.len()
                        &&& final(logits)@[0] == old(logits)@[i]
                        &&& no_nans(old(logits)@) ==> (forall|k: int|
                            0 <= k < old(logits)@.len() ==> !f32b_lt(
                                final(logits)@[0].logit_bits,
                                #[trigger] old(logits)@[k].logit_bits,
                            )) && (forall|k: int|
                            0 <= k < i ==> f32b_lt(
                                #[trigger] old(logits)@[k].logit_bits,
                                final(logits)@[0].logit_bits,
                            ))
                    }
            }),
    {
        let n = logits.len();
        if n == 0 {
            return ;
        }
        let mut m: usize = 0;
        let mut j: usize = 1;
        while j < n
            invariant
                0 <= m < j <= n,
                n == logits@.len(),
                no_nans(logits@) ==> (forall|q: int|
                    0 <= q < j ==> !f32b_lt(
                        logits@[m as int].logit_bits,
                        #[trigger] logits@[q].logit_bits,
                    )),
                no_nans(logits@) ==> (forall|q: int|
                    0 <= q < m ==> f32b_lt(
                        #[trigger] logits@[q].logit_bits,
                        logits@[m as int].logit_bits,
                    )),
            decreases n - j,
        {
            if crate::sampler::f32_bits_lt(logits[m].logit_bits, logits[j].logit_bits) {
                proof {
                    if no_nans(logits@) {
                        let om = logits@[m as int].logit_bits;
                        let oj = logits@[j as int].logit_bits;
                        assert forall|q: int| 0 <= q < j + 1 implies !f32b_lt(
                            oj,
                            #[trigger] logits@[q].logit_bits,
                        ) by {
                            if q < j {
                                lemma_f32b_lt_key(om, oj);
                                lemma_f32b_lt_key(om, logits@[q].logit_bits);
                                lemma_f32b_lt_key(oj, logits@[q].logit_bits);
                            }
                        }
                        assert forall|q: int| 0 <= q < j implies f32b_lt(
                            #[trigger] logits@[q].logit_bits,
                            oj,
                        ) by {
                            if q < m {
                                lemma_f32b_lt_key(om, oj);
                                lemma_f32b_lt_key(logits@[q].logit_bits, om);
                                lemma_f32b_lt_key(logits@[q].logit_bits, oj);
                            } else if q == m {
                            } else {
                                lemma_f32b_lt_key(om, oj);
                                lemma_f32b_lt_key(om, logits@[q].logit_bits);
                                lemma_f32b_lt_key(logits@[q].logit_bits, oj);
                            }
                        }
                    }
                }
                m = j;
            }
            j += 1;
        }
        let best = logits[m];
        logits.clear();
        logits.push(best);
        proof {
            assert(final(logits)@ =~= seq![old(logits)@[m as int]]);
        }
    }
}

/// Seeded categorical selector.  It stores the seed; the draw itself and
/// the softmax live with the numeric side, which hands back the running
/// cumulative probabilities and the uniform draw as bits, and the index
/// decision below is exact.
pub struct DistSampler {
    /// The seed for the reproducible random stream.
    pub seed: u64,
}

/// The index the categorical draw picks: the first position whose
/// cumulative probability strictly exceeds the draw, or the last
/// position when none does.
pub open spec fn spec_pick(cum: Seq<u32>, draw: u32) -> int
    decreases cum.len(),
{
    if cum.len() == 0 {
        0
    } else if f32b_lt(draw, cum[0]) {
        0
    } else {
        1 + spec_pick(cum.drop_first(), draw)
    }
}

impl DistSampler {
    /// A categorical selector with the given seed for reproducibility.
    pub fn new(seed: u64) -> (r: DistSampler)
        ensures
            r.seed == seed,
    {
        DistSampler { seed }
    }

    /// Picks the index of the first cumulative probability strictly
    /// above the draw, clamping to the last index when the running sum
    /// never reaches it.
    pub fn pick(&self, cum: &[u32], draw: u32) -> (r: usize)
        requires
            cum@.len() > 0,
        ensures
            r == vstd::math::min(spec_pick(cum@, draw), cum@.len() - 1),
    {
        let n = cum.len();
        proof {
            lemma_spec_pick_nonneg(cum@, draw);
        }
        let mut i: usize = 0;
        while i < n
            invariant
                0 <= i <= n,
                n == cum@.len(),
                spec_pick(cum@, draw) >= i,
                forall|k: int| 0 <= k < i ==> !f32b_lt(draw, #[trigger] cum@[k]),
            decreases n - i,
        {
            if crate::sampler::f32_bits_lt(draw, *vstd::slice::slice_index_get(cum, i)) {
                proof {
                    lemma_spec_pick_at(cum@, draw, i as int);
                }
                return i;
            }
            proof {
                lemma_spec_pick_past(cum@, draw, i as int);
            }
            i += 1;
        }
        n - 1
    }
}

/// With no hit below `i` and a hit at `i`, the pick is `i`.
proof fn lemma_spec_pick_at(cum: Seq<u32>, draw: u32, i: int)
    requires
        0 <= i < cum.len(),
        forall|k: int| 0 <= k < i ==> !f32b_lt(draw, #[trigger] cum[k]),
        f32b_lt(draw, cum[i]),
    ensures
        spec_pick(cum, draw) == i,
    decreases i,
{
    if i > 0 {
        lemma_spec_pick_at(cum.drop_first(), draw, i - 1);
    }
}

/// The pick is never negative.
proof fn lemma_spec_pick_nonneg(cum: Seq<u32>, draw: u32)
    ensures
        spec_pick(cum, draw) >= 0,
    decreases cum.len(),
{
    if cum.len() > 0 && !f32b_lt(draw, cum[0]) {
        lemma_spec_pick_nonneg(cum.drop_first(), draw);
    }
}

/// With no hit up through `i`, the pick lies past `i`.
proof fn lemma_spec_pick_past(cum: Seq<u32>, draw: u32, i: int)
    requires
        0 <= i < cum.len(),
        forall|k: int| 0 <= k <= i ==> !f32b_lt(draw, #[trigger] cum[k]),
    ensures
        spec_pick(cum, draw) >= i + 1,
    decreases i,
{
    if i > 0 {
        lemma_spec_pick_past(cum.drop_first(), draw, i - 1);
    } else {
        lemma_spec_pick_nonneg(cum.drop_first(), draw);
    }
}

} // verus!
