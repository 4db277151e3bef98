//! Key-value cache for transformer attention layers.
//!
//! Per layer, one flat row per position of `n_kv_heads x head_dim`
//! numbers, stored as IEEE-32 bit patterns; the cache only stores and
//! hands back values, never computes on them.

use vstd::prelude::*;

verus! {

/// Key-value cache for all layers, with a shared length counter: the
/// highest position written so far, plus one.
pub struct KvCache {
    /// Key cache, flat: layer-major, position, then channel.
    pub k: Vec<u32>,
    /// Value cache, same layout.
    pub v: Vec<u32>,
    /// Number of transformer layers.
    pub n_layers: usize,
    /// Number of key/value attention heads.
    pub n_kv_heads: usize,
    /// Dimension of each attention head.
    pub head_dim: usize,
    /// Maximum sequence length the cache can hold.
    pub max_seq_len: usize,
    /// Number of positions currently stored.
    pub len: usize,
}

impl KvCache {
    /// Numbers per cached position: one row of all key/value heads.
    pub open spec fn spec_kv_dim(&self) -> int {
        self.n_kv_heads * self.head_dim
    }

    /// Numbers per layer.
    pub open spec fn spec_layer_size(&self) -> int {
        self.max_seq_len * self.spec_kv_dim()
    }

    /// The buffers have exactly the configured size and the length
    /// counter stays within the window.
    pub open spec fn wf(&self) -> bool {
        &&& self.k@.len() == self.n_layers * self.spec_layer_size()
        &&& self.v@.len() == self.k@.len()
        &&& self.len <= self.max_seq_len
        &&& self.spec_kv_dim() <= usize::MAX
        &&& self.n_layers * self.max_seq_len <= usize::MAX
    }

    /// The view of the key buffer.
    pub open spec fn k_view(&self) -> Seq<u32> {
        self.k@
    }

    /// The view of the value buffer.
    pub open spec fn v_view(&self) -> Seq<u32> {
        self.v@
    }

    /// First buffer index of the row for `(layer, pos)`.
    pub open spec fn spec_row_base(&self, layer: int, pos: int) -> int {
        (layer * self.max_seq_len + pos) * self.spec_kv_dim()
    }

    /// A fresh cache, zero-filled, with length 0.
    pub fn new(n_layers: usize, n_kv_heads: usize, head_dim: usize, max_seq_len: usize) -> (r:
        KvCache)
        requires
            n_kv_heads * head_dim <= usize::MAX,
            max_seq_len * n_kv_heads * head_dim <= usize::MAX,
            n_layers * max_seq_len * n_kv_heads * head_dim <= usize::MAX,
            n_layers * max_seq_len <= usize::MAX,
        ensures
            r.wf(),
            r.n_layers == n_layers,
            r.n_kv_heads == n_kv_heads,
            r.head_dim == head_dim,
            r.max_seq_len == max_seq_len,
            r.len == 0,
            forall|i: int| 0 <= i < r.k_view().len() ==> r.k_view()[i] == 0,
            forall|i: int| 0 <= i < r.v_view().len() ==> r.v_view()[i] == 0,
    {
        proof {
            assert(max_seq_len * (n_kv_heads * head_dim) == max_seq_len * n_kv_heads * head_dim
                && n_layers * (max_seq_len * (n_kv_heads * head_dim)) == n_layers * max_seq_len
                * n_kv_heads * head_dim) by (nonlinear_arith);
        }
        let kv_dim = n_kv_heads * head_dim;
        let layer_size = max_seq_len * kv_dim;
        let cache_size = n_layers * layer_size;
        let k = vec![0u32; cache_size];
        let v = vec![0u32; cache_size];
        proof {
            assert(n_layers * (max_seq_len * (n_kv_heads as int * head_dim)) == n_layers * (
            max_seq_len * n_kv_heads * head_dim)) by (nonlinear_arith);
        }
        KvCache { k, v, n_layers, n_kv_heads, head_dim, max_seq_len, len: 0 }
    }

    /// Writes the key and value row for one token at `pos` in `layer`,
    /// and advances the length counter to at least `pos + 1`.  No other
    /// entry changes.
    pub fn update(&mut self, layer: usize, k_data: &[u32], v_data: &[u32], pos: usize)
        requires
            old(self).wf(),
            layer < old(self).n_layers,
            pos < old(self).max_seq_len,
            k_data@.len() == old(self).spec_kv_dim(),
            v_data@.len() == old(self).spec_kv_dim(),
        ensures
            final(self).wf(),
            final(self).n_layers == old(self).n_layers,
            final(self).n_kv_heads == old(self).n_kv_heads,
            final(self).head_dim == old(self).head_dim,
            final(self).max_seq_len == old(self).max_seq_len,
            final(self).len == vstd::math::max(old(self).len as int, pos + 1),
            final(self).len >= pos + 1,
            ({
                let b = old(self).spec_row_base(layer as int, pos as int);
                let w = old(self).spec_kv_dim();
                &&& (forall|d: int|
                    0 <= d < w ==> final(self).k_view()[b + d] == k_data@[d] && final(self).v_view()[b + d] == v_data@[d])
                &&& (forall|i: int|
                    0 <= i < old(self).k_view().len() && !(b <= i < b + w) ==> final(self).k_view()[i] == old(self).k_view()[i] && final(self).v_view()[i] == old(self).v_view()[i])
            }),
    {
        let klen = self.k.len();
        proof {
            assert((layer * self.max_seq_len + pos) * (self.n_kv_heads * self.head_dim) >= 0 && (
            layer * self.max_seq_len + pos) * (self.n_kv_heads * self.head_dim) + self.n_kv_heads
                * self.head_dim <= self.n_layers * (self.max_seq_len * (self.n_kv_heads
                * self.head_dim)) && self.n_kv_heads * self.head_dim <= self.n_layers * (
            self.max_seq_len * (self.n_kv_heads * self.head_dim)) && layer * self.max_seq_len
                + pos < self.n_layers * self.max_seq_len) by (nonlinear_arith)
                requires
                    layer < self.n_layers,
                    pos < self.max_seq_len,
                    self.n_kv_heads >= 0,
                    self.head_dim >= 0,
                    layer >= 0,
                    pos >= 0,
            ;
            assert(self.n_layers * (self.max_seq_len * (self.n_kv_heads * self.head_dim))
                == self.n_layers * self.spec_layer_size()) by (nonlinear_arith);
            assert((layer * self.max_seq_len + pos) * (self.n_kv_heads as int * self.head_dim)
                == (layer * self.max_seq_len + pos) * self.spec_kv_dim()) by (nonlinear_arith);
        }
        let kv_dim = self.n_kv_heads * self.head_dim;
        let base = (layer * self.max_seq_len + pos) * kv_dim;
        let ghost base_g = base as int;
        let mut d: usize = 0;
        while d < kv_dim
            invariant
                0 <= d <= kv_dim,
                kv_dim == self.spec_kv_dim(),
                base_g == base,
                klen == self.k@.len(),
                base + kv_dim <= self.k@.len(),
                self.v@.len() == self.k@.len(),
                k_data@.len() == kv_dim,
                v_data@.len() == kv_dim,
                self.n_layers == old(self).n_layers,
                self.n_kv_heads == old(self).n_kv_heads,
                self.head_dim == old(self).head_dim,
                self.max_seq_len == old(self).max_seq_len,
                self.len == old(self).len,
                self.k@.len() == old(self).k@.len(),
                forall|q: int| 0 <= q < d ==> self.k@[base_g + q] == k_data@[q],
                forall|q: int| 0 <= q < d ==> self.v@[base_g + q] == v_data@[q],
                forall|i: int|
                    0 <= i < self.k@.len() && !(base_g <= i < base_g + d) ==> self.k@[i] == old(self).k@[i] && self.v@[i] == old(self).v@[i],
            decreases kv_dim - d,
    {
            let kd = *vstd::slice::slice_index_get(k_data, d);
            let vd = *vstd::slice::slice_index_get(v_data, d);
            self.k.set(base + d, kd);
            self.v.set(base + d, vd);
            d += 1;
        }
        if pos + 1 > self.len {
            self.len = pos + 1;
        }
    }

    /// The key rows for positions `0..seq_len` of one layer.
    pub fn get_k(&self, layer: usize, seq_len: usize) -> (r: &[u32])
        requires
            self.wf(),
            layer < self.n_layers,
            seq_len <= self.max_seq_len,
        ensures
            r@ == self.k_view().subrange(
                self.spec_row_base(layer as int, 0),
                self.spec_row_base(layer as int, 0) + seq_len * self.spec_kv_dim(),
            ),
    {
        // Reading the length gives the prover the machine bound on the
        // buffer, which the index arithmetic below needs.
        let _klen: usize = self.k.len();
        proof {
            self.lemma_row_range(layer as int, seq_len as int);
            assert(layer * self.max_seq_len <= self.n_layers * self.max_seq_len) by (
            nonlinear_arith)
                requires
                    0 <= layer < self.n_layers,
                    self.max_seq_len >= 0,
            ;
        }
        let kv_dim = self.n_kv_heads * self.head_dim;
        let base = layer * self.max_seq_len * kv_dim;
        vstd::slice::slice_subrange(self.k.as_slice(), base, base + seq_len * kv_dim)
    }

    /// The value rows for positions `0..seq_len` of one layer.
    pub fn get_v(&self, layer: usize, seq_len: usize) -> (r: &[u32])
        requires
            self.wf(),
            layer < self.n_layers,
            seq_len <= self.max_seq_len,
        ensures
            r@ == self.v_view().subrange(
                self.spec_row_base(layer as int, 0),
                self.spec_row_base(layer as int, 0) + seq_len * self.spec_kv_dim(),
            ),
    {
        // Reading the length gives the prover the machine bound on the
        // buffer, which the index arithmetic below needs.
        let _vlen: usize = self.v.len();
        proof {
            self.lemma_row_range(layer as int, seq_len as int);
            assert(layer * self.max_seq_len <= self.n_layers * self.max_seq_len) by (
            nonlinear_arith)
                requires
                    0 <= layer < self.n_layers,
                    self.max_seq_len >= 0,
            ;
        }
        let kv_dim = self.n_kv_heads * self.head_dim;
        let base = layer * self.max_seq_len * kv_dim;
        vstd::slice::slice_subrange(self.v.as_slice(), base, base + seq_len * kv_dim)
    }

    /// The window `layer` rows occupy stays inside the buffers.
    proof fn lemma_row_range(&self, layer: int, seq_len: int)
        requires
            self.wf(),
            0 <= layer < self.n_layers,
            0 <= seq_len <= self.max_seq_len,
        ensures
            0 <= self.spec_row_base(layer, 0),
            self.spec_row_base(layer, 0) + seq_len * self.spec_kv_dim() <= self.k@.len(),
            layer * self.max_seq_len * self.spec_kv_dim() == self.spec_row_base(layer, 0),
            seq_len * self.spec_kv_dim() >= 0,
    {
        assert((layer * self.max_seq_len + 0) * (self.n_kv_heads * self.head_dim) >= 0 && (layer
            * self.max_seq_len) * (self.n_kv_heads * self.head_dim) + seq_len * (self.n_kv_heads
            * self.head_dim) <= self.n_layers * (self.max_seq_len * (self.n_kv_heads
            * self.head_dim)) && layer * self.max_seq_len * (self.n_kv_heads * self.head_dim) == (
        layer * self.max_seq_len + 0) * (self.n_kv_heads * self.head_dim) && seq_len * (
        self.n_kv_heads * self.head_dim) >= 0) by (nonlinear_arith)
            requires
                0 <= layer < self.n_layers,
                0 <= seq_len <= self.max_seq_len,
                self.n_kv_heads >= 0,
                self.head_dim >= 0,
        ;
        assert(self.n_layers * (self.max_seq_len * (self.n_kv_heads * self.head_dim))
            == self.n_layers * self.spec_layer_size()) by (nonlinear_arith);
    }

    /// Clears every entry to zero and resets the length counter.
    pub fn reset(&mut self)
        requires
            old(self).wf(),
        ensures
            final(self).wf(),
            final(self).n_layers == old(self).n_layers,
            final(self).n_kv_heads == old(self).n_kv_heads,
            final(self).head_dim == old(self).head_dim,
            final(self).max_seq_len == old(self).max_seq_len,
            final(self).len == 0,
            final(self).k_view().len() == old(self).k_view().len(),
            final(self).v_view().len() == old(self).v_view().len(),
            forall|i: int| 0 <= i < final(self).k_view().len() ==> final(self).k_view()[i] == 0,
            forall|i: int| 0 <= i < final(self).v_view().len() ==> final(self).v_view()[i] == 0,
    {
        let n = self.k.len();
        self.k = vec![0u32; n];
        self.v = vec![0u32; n];
        self.len = 0;
    }
}

} // verus!
