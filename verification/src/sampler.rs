//! The sampling pipeline's ordering logic.
//!
//! Logits are carried as IEEE-32 bit patterns; the comparison below is
//! the numeric order of the values those bits denote, decided purely on
//! the bits.  The arithmetic transforms (scaling, softmax) happen outside
//! the core and hand their results back as bits.

pub mod greedy;
pub mod top_k;
pub mod top_p;
pub mod temperature;
pub mod repetition;

use vstd::prelude::*;

verus! {

/// A token ID paired with its logit, the latter as IEEE-32 bits.
#[derive(Debug, Clone, Copy, PartialEq, Eq, Structural)]
pub struct TokenLogit {
    /// The token this logit scores.
    pub token_id: u32,
    /// The logit value, as its bit pattern.
    pub logit_bits: u32,
}

/// Whether the bits denote an IEEE-32 NaN: exponent all ones, nonzero
/// fraction.
pub open spec fn f32b_is_nan(x: u32) -> bool {
    x % 0x80000000 >= 0x7F800000 && x % 0x800000 != 0
}

/// The magnitude bits: everything but the sign.
pub open spec fn f32b_mag(x: u32) -> u32 {
    (x % 0x80000000) as u32
}

/// The sign bit.
pub open spec fn f32b_neg(x: u32) -> bool {
    x >= 0x80000000
}

/// Numeric order of two non-NaN IEEE-32 values, decided on their bits:
/// negatives before positives (except that the two zeros are equal), and
/// within one sign the magnitude decides.  False whenever either side is
/// a NaN.
pub open spec fn f32b_lt(a: u32, b: u32) -> bool {
    &&& !f32b_is_nan(a)
    &&& !f32b_is_nan(b)
    &&& if f32b_neg(a) != f32b_neg(b) {
        f32b_neg(a) && !(f32b_mag(a) == 0 && f32b_mag(b) == 0)
    } else if !f32b_neg(a) {
        f32b_mag(a) < f32b_mag(b)
    } else {
        f32b_mag(b) < f32b_mag(a)
    }
}

/// A signed key that orders non-NaN values like `f32b_lt`.
pub open spec fn f32b_key(x: u32) -> int {
    if f32b_neg(x) {
        -(f32b_mag(x) as int)
    } else {
        f32b_mag(x) as int
    }
}

/// For non-NaN bits, the order is exactly the order of the keys.
pub proof fn lemma_f32b_lt_key(a: u32, b: u32)
    requires
        !f32b_is_nan(a),
        !f32b_is_nan(b),
    ensures
        f32b_lt(a, b) == (f32b_key(a) < f32b_key(b)),
{
}

/// No element of the sequence is a NaN.
pub open spec fn no_nans(s: Seq<TokenLogit>) -> bool {
    forall|i: int| 0 <= i < s.len() ==> !f32b_is_nan(#[trigger] s[i].logit_bits)
}

/// The sequence is ordered with no later logit above an earlier one.
pub open spec fn sorted_desc(s: Seq<TokenLogit>) -> bool {
    forall|i: int, j: int|
        0 <= i < j < s.len() ==> !f32b_lt(#[trigger] s[i].logit_bits, #[trigger] s[j].logit_bits)
}

/// Numeric order of two logits given as bits, executable.
pub fn f32_bits_lt(a: u32, b: u32) -> (r: bool)
    ensures
        r == f32b_lt(a, b),
{
    let nan_a = a % 0x80000000 >= 0x7F800000 && a % 0x800000 != 0;
    let nan_b = b % 0x80000000 >= 0x7F800000 && b % 0x800000 != 0;
    if nan_a || nan_b {
        return false;
    }
    let neg_a = a >= 0x80000000;
    let neg_b = b >= 0x80000000;
    let mag_a = a % 0x80000000;
    let mag_b = b % 0x80000000;
    if neg_a != neg_b {
        neg_a && !(mag_a == 0 && mag_b == 0)
    } else if !neg_a {
        mag_a < mag_b
    } else {
        mag_b < mag_a
    }
}

/// A witness that `b` is a reordering of `a` through the index map
/// `p`, and a stable one: entries whose logits have equal numeric keys
/// keep their relative order.
pub open spec fn is_stable_reorder(a: Seq<TokenLogit>, b: Seq<TokenLogit>, p: Seq<int>) -> bool {
    &&& p.len() == a.len()
    &&& b.len() == a.len()
    &&& (forall|i: int| 0 <= i < p.len() ==> 0 <= #[trigger] p[i] < a.len())
    &&& (forall|i: int| 0 <= i < p.len() ==> b[i] == a[#[trigger] p[i]])
    &&& (forall|i: int, j: int| 0 <= i < j < p.len() ==> #[trigger] p[i] != #[trigger] p[j])
    &&& (forall|i: int, j: int|
        0 <= i < j < p.len() && f32b_key(#[trigger] b[i].logit_bits) == f32b_key(
            #[trigger] b[j].logit_bits,
        ) ==> p[i] < p[j])
}

/// Sorts the logits into non-increasing order by insertion, moving each
/// entry left past strictly smaller ones.  The multiset of entries is
/// kept; the sort is stable (entries with equal logits keep their
/// order); the ordering claim holds when no logit is a NaN.
pub fn sort_logits_desc(v: &mut Vec<TokenLogit>)
    ensures
        final(v)@.len() == old(v)@.len(),
        final(v)@.to_multiset() == old(v)@.to_multiset(),
        no_nans(old(v)@) ==> sorted_desc(final(v)@),
        no_nans(old(v)@) ==> no_nans(final(v)@),
        exists|p: Seq<int>| #[trigger] is_stable_reorder(old(v)@, final(v)@, p),
{
    let n = v.len();
    let ghost mut perm: Seq<int> = Seq::new(n as nat, |q: int| q);
    proof {
        assert(is_stable_reorder(old(v)@, v@, perm));
    }
    let mut i: usize = 0;
    while i < n
        invariant
            0 <= i <= n,
            v@.len() == n,
            v@.to_multiset() == old(v)@.to_multiset(),
            is_stable_reorder(old(v)@, v@, perm),
            no_nans(old(v)@) ==> no_nans(v@),
            no_nans(old(v)@) ==> (forall|a: int, b: int|
                0 <= a < b < i ==> !f32b_lt(
                    #[trigger] v@[a].logit_bits,
                    #[trigger] v@[b].logit_bits,
                )),
        decreases n - i,
    {
        let mut j: usize = i;
        while j > 0 && f32_bits_lt(v[j - 1].logit_bits, v[j].logit_bits)
            invariant
                0 <= j <= i < n,
                v@.len() == n,
                v@.to_multiset() == old(v)@.to_multiset(),
                is_stable_reorder(old(v)@, v@, perm),
                no_nans(old(v)@) ==> no_nans(v@),
                no_nans(old(v)@) ==> (forall|a: int, b: int|
                    0 <= a < b <= i && b != j ==> !f32b_lt(
                        #[trigger] v@[a].logit_bits,
                        #[trigger] v@[b].logit_bits,
                    )),
                no_nans(old(v)@) ==> (forall|b: int|
                    j < b <= i ==> !f32b_lt(
                        v@[j as int].logit_bits,
                        #[trigger] v@[b].logit_bits,
                    )),
            decreases j,
        {
            let ghost prev = v@;
            let ghost pprev = perm;
            let x = v[j - 1];
            let y = v[j];
            v.set(j - 1, y);
            v.set(j, x);
            proof {
                perm = perm.update(j - 1, pprev[j as int]).update(j as int, pprev[j - 1]);
                assert(v@ == prev.update(j - 1, prev[j as int]).update(
                    j as int,
                    prev[j - 1],
                ));
                lemma_swap_multiset(prev, j - 1, j as int);
                // The swapped pair is strictly ordered, so its keys differ.
                lemma_f32b_lt_key(x.logit_bits, y.logit_bits);
                assert(f32b_key(x.logit_bits) < f32b_key(y.logit_bits));
                // The permutation witness survives an adjacent swap of a
                // strictly ordered pair.
                assert forall|q: int| 0 <= q < n implies v@[q] == old(v)@[#[trigger] perm[q]]
                    && 0 <= perm[q] < n by {
                    if q == j - 1 || q == j {
                    } else {
                        assert(v@[q] == prev[q] && perm[q] == pprev[q]);
                    }
                }
                assert forall|a: int, b: int| 0 <= a < b < n implies #[trigger] perm[a]
                    != #[trigger] perm[b] by {
                    let pa = if a == j - 1 { pprev[j as int] } else if a == j { pprev[j - 1] } else { pprev[a] };
                    assert(perm[a] == pa);
                }
                assert forall|a: int, b: int|
                    0 <= a < b < n && f32b_key(#[trigger] v@[a].logit_bits) == f32b_key(
                        #[trigger] v@[b].logit_bits,
                    ) implies perm[a] < perm[b] by {
                    if a == j - 1 && b == j {
                        // Keys differ: vacuous.
                    } else if b == j - 1 {
                        assert(v@[a] == prev[a] && v@[b] == prev[j as int]);
                        assert(pprev[a] < pprev[j as int]);
                    } else if a == j - 1 {
                        assert(v@[a] == prev[j as int] && v@[b] == prev[b]);
                        assert(pprev[j as int] < pprev[b]);
                    } else if a == j {
                        assert(v@[a] == prev[j - 1] && v@[b] == prev[b]);
                        assert(pprev[j - 1] < pprev[b]);
                    } else if b == j {
                        assert(v@[a] == prev[a] && v@[b] == prev[j - 1]);
                        assert(pprev[a] < pprev[j - 1]);
                    } else {
                        assert(v@[a] == prev[a] && v@[b] == prev[b]);
                        assert(pprev[a] < pprev[b]);
                    }
                }
                // The two ordering shapes survive the swap.
                if no_nans(old(v)@) {
                    assert forall|a: int, b: int|
                        0 <= a < b <= i && b != j - 1 implies !f32b_lt(
                            #[trigger] v@[a].logit_bits,
                            #[trigger] v@[b].logit_bits,
                        ) by {
                        if b == j {
                            assert(v@[b] == prev[j - 1]);
                            if a == j - 1 {
                                assert(v@[a] == prev[j as int]);
                            } else {
                                assert(v@[a] == prev[a]);
                            }
                        } else {
                            assert(v@[b] == prev[b]);
                            if a == j - 1 {
                                assert(v@[a] == prev[j as int]);
                            } else if a == j {
                                assert(v@[a] == prev[j - 1]);
                            } else {
                                assert(v@[a] == prev[a]);
                            }
                        }
                    }
                    assert forall|b: int| j - 1 < b <= i implies !f32b_lt(
                        v@[j - 1].logit_bits,
                        #[trigger] v@[b].logit_bits,
                    ) by {
                        assert(v@[j - 1] == prev[j as int]);
                        if b == j {
                            assert(v@[b] == prev[j - 1]);
                        } else {
                            assert(v@[b] == prev[b]);
                        }
                    }
                }
            }
            j -= 1;
        }
        // The inserted entry sits below everything before it.
        proof {
            if no_nans(old(v)@) {
                assert forall|a: int, b: int| 0 <= a < b < i + 1 implies !f32b_lt(
                    #[trigger] v@[a].logit_bits,
                    #[trigger] v@[b].logit_bits,
                ) by {
                    if b == j {
                        if a < j - 1 {
                            lemma_f32b_lt_key(v@[a].logit_bits, v@[j - 1].logit_bits);
                            lemma_f32b_lt_key(v@[j - 1].logit_bits, v@[j as int].logit_bits);
                            lemma_f32b_lt_key(v@[a].logit_bits, v@[j as int].logit_bits);
                        }
                    }
                }
            }
        }
        i += 1;
    }
    proof {
        assert(is_stable_reorder(old(v)@, v@, perm));
    }
}

/// The working list a chain starts from: one entry per vocabulary
/// index, carrying that index and its raw logit bits.
pub fn init_token_logits(bits: &[u32]) -> (r: Vec<TokenLogit>)
    requires
        bits@.len() <= u32::MAX,
    ensures
        r@.len() == bits@.len(),
        forall|i: int|
            0 <= i < bits@.len() ==> #[trigger] r@[i] == (TokenLogit {
                token_id: i as u32,
                logit_bits: bits@[i],
            }),
{
    let mut r: Vec<TokenLogit> = Vec::new();
    let n = bits.len();
    let mut i: usize = 0;
    while i < n
        invariant
            0 <= i <= n,
            n == bits@.len(),
            n <= u32::MAX,
            r@.len() == i,
            forall|k: int|
                0 <= k < i ==> #[trigger] r@[k] == (TokenLogit {
                    token_id: k as u32,
                    logit_bits: bits@[k],
                }),
        decreases n - i,
    {
        r.push(TokenLogit { token_id: i as u32, logit_bits: *vstd::slice::slice_index_get(bits, i) });
        i += 1;
    }
    r
}

/// What a finished chain returns: the first survivor's token ID, or 0
/// for an empty list.
pub fn selected_token(logits: &[TokenLogit]) -> (r: u32)
    ensures
        logits@.len() == 0 ==> r == 0,
        logits@.len() > 0 ==> r == logits@[0].token_id,
{
    if logits.is_empty() {
        0
    } else {
        vstd::slice::slice_index_get(logits, 0).token_id
    }
}

/// Swapping two positions keeps the multiset of elements.
pub proof fn lemma_swap_multiset(s: Seq<TokenLogit>, i: int, m: int)
    requires
        0 <= i < s.len(),
        0 <= m < s.len(),
    ensures
        s.update(i, s[m]).update(m, s[i]).to_multiset() == s.to_multiset(),
{
    broadcast use vstd::seq_lib::group_to_multiset_ensures;
    broadcast use vstd::seq_lib::to_multiset_update;
    broadcast use vstd::multiset::group_multiset_axioms;
    broadcast use vstd::multiset::group_multiset_properties;

    if i == m {
        assert(s.update(i, s[m]).update(m, s[i]) =~= s);
    } else {
        let s1 = s.update(i, s[m]);
        assert(s1[m] == s[m]);
        assert(s1.to_multiset() == s.to_multiset().insert(s[m]).remove(s[i]));
        assert(s1.update(m, s[i]).to_multiset() == s1.to_multiset().insert(s[i]).remove(s1[m]));
        assert(s.contains(s[i]));
        assert(s.to_multiset().count(s[i]) > 0);
        assert(s.to_multiset().insert(s[m]).remove(s[i]).insert(s[i]).remove(s[m])
            =~= s.to_multiset());
    }
}

} // verus!
