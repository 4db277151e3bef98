//! Repetition penalty: the rolling window of recent token IDs.  The
//! penalty multiplication itself is floating-point work and lives with
//! the numeric side, which asks `contains` which logits to touch.

use vstd::prelude::*;

verus! {

/// Penalizes tokens that appear in a rolling window of recently
/// generated IDs.
pub struct RepetitionPenaltySampler {
    /// The penalty factor, as IEEE-32 bits; 1.0 means no penalty.
    pub penalty_bits: u32,
    /// The most recent token IDs, oldest first.
    pub recent_tokens: Vec<u32>,
    /// Upper bound on the window's size.
    pub max_history: usize,
}

impl RepetitionPenaltySampler {
    /// A repetition penalty with the given factor bits and window bound.
    pub fn new(penalty_bits: u32, max_history: usize) -> (r: RepetitionPenaltySampler)
        ensures
            r.penalty_bits == penalty_bits,
            r.max_history == max_history,
            r.recent_tokens@ == Seq::<u32>::empty(),
    {
        RepetitionPenaltySampler { penalty_bits, recent_tokens: Vec::new(), max_history }
    }

    /// Records a generated token; when the window is full, the oldest
    /// entry leaves.
    pub fn add_token(&mut self, token: u32)
        ensures
            final(self).penalty_bits == old(self).penalty_bits,
            final(self).max_history == old(self).max_history,
            old(self).recent_tokens@.len() + 1 > old(self).max_history ==> final(self).recent_tokens@ == old(self).recent_tokens@.push(token).drop_first(),
            old(self).recent_tokens@.len() + 1 <= old(self).max_history ==> final(self).recent_tokens@ == old(self).recent_tokens@.push(token),
    {
        self.recent_tokens.push(token);
        if self.recent_tokens.len() > self.max_history {
            let _dropped = self.recent_tokens.remove(0);
            proof {
                assert(old(self).recent_tokens@.push(token).remove(0) =~= old(self).recent_tokens@.push(token).drop_first());
            }
        }
    }

    /// Whether a token ID sits in the window right now.
    pub fn contains(&self, token: u32) -> (r: bool)
        ensures
            r == self.recent_tokens@.contains(token),
    {
        let n = self.recent_tokens.len();
        let mut i: usize = 0;
        while i < n
            invariant
                0 <= i <= n,
                n == self.recent_tokens@.len(),
                forall|k: int| 0 <= k < i ==> self.recent_tokens@[k] != token,
            decreases n - i,
        {
            if self.recent_tokens[i] == token {
                return true;
            }
            i += 1;
        }
        false
    }

    /// Empties the window.
    pub fn reset(&mut self)
        ensures
            final(self).penalty_bits == old(self).penalty_bits,
            final(self).max_history == old(self).max_history,
            final(self).recent_tokens@ == Seq::<u32>::empty(),
    {
        self.recent_tokens.clear();
    }
}

} // verus!
