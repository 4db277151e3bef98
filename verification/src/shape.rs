//! Tensor shapes: dimension lists, row-major strides, and numpy-style
//! broadcasting.

use vstd::prelude::*;

use crate::error::TensorError;

verus! {

/// A tensor shape: an ordered list of non-negative dimension sizes.
#[derive(Debug, Clone, PartialEq, Eq, Hash)]
pub struct Shape {
    dims: Vec<usize>,
}

impl View for Shape {
    type V = Seq<usize>;

    closed spec fn view(&self) -> Seq<usize> {
        self.dims@
    }
}

/// Product of `dims[k..]`; 1 when `k` is at or past the end.
/// `suffix_prod(dims, 0)` is the element count of the shape, and
/// `suffix_prod(dims, k + 1)` is the row-major stride of dimension `k`.
pub open spec fn suffix_prod(dims: Seq<usize>, k: int) -> nat
    decreases dims.len() - k when k <= dims.len()
{
    if k < 0 || k >= dims.len() {
        1
    } else {
        (dims[k] * suffix_prod(dims, k + 1)) as nat
    }
}

/// All suffix products of the dimension list fit in a machine word; the
/// partial products computed by `numel` and `strides` stay in range exactly
/// when this holds.
pub open spec fn shape_products_fit(dims: Seq<usize>) -> bool {
    forall|k: int| 0 <= k <= dims.len() ==> suffix_prod(dims, k) <= usize::MAX
}

/// The row-major contiguous strides of a dimension list:
/// `strides[k]` is the product of all dimensions after `k`.
pub open spec fn spec_strides(dims: Seq<usize>) -> Seq<usize> {
    Seq::new(dims.len(), |k: int| suffix_prod(dims, k + 1) as usize)
}

/// Right-aligned dimension of `dims` at distance `i` from the right,
/// padded with 1 beyond the rank, as the numpy broadcast rules read it.
pub open spec fn bc_dim(dims: Seq<usize>, i: int) -> usize {
    if i < dims.len() {
        dims[dims.len() - 1 - i]
    } else {
        1
    }
}

/// Whether two right-aligned dimensions are broadcast-compatible:
/// equal, or one of them 1.
pub open spec fn bc_dim_ok(da: usize, db: usize) -> bool {
    da == db || da == 1 || db == 1
}

/// Whether two dimension lists are broadcast-compatible at every
/// right-aligned position.
pub open spec fn bc_compat(a: Seq<usize>, b: Seq<usize>) -> bool {
    forall|i: int|
        0 <= i < vstd::math::max(a.len() as int, b.len() as int) ==> bc_dim_ok(
            bc_dim(a, i),
            bc_dim(b, i),
        )
}

/// The merged size of two broadcast-compatible dimensions: the common size,
/// or whichever is not 1.  (A size-1 dimension stretches to the other side's
/// size, including size 0.)
pub open spec fn bc_dim_merge(da: usize, db: usize) -> usize {
    if da == db {
        da
    } else if da == 1 {
        db
    } else {
        da
    }
}

/// The broadcast result: the merged size at each right-aligned position.
pub open spec fn bc_result(a: Seq<usize>, b: Seq<usize>) -> Seq<usize> {
    let n = vstd::math::max(a.len() as int, b.len() as int);
    Seq::new(n as nat, |j: int| bc_dim_merge(bc_dim(a, n - 1 - j), bc_dim(b, n - 1 - j)))
}

impl Shape {
    /// Wraps a vector of dimension sizes as a shape.
    pub fn new(dims: Vec<usize>) -> (r: Shape)
        ensures
            r@ == dims@,
    {
        Shape { dims }
    }

    /// Copies a slice of dimension sizes into a shape.
    pub fn from_slice(dims: &[usize]) -> (r: Shape)
        ensures
            r@ == dims@,
    {
        Shape { dims: vstd::slice::slice_to_vec(dims) }
    }

    /// Number of dimensions (rank).
    pub fn ndim(&self) -> (r: usize)
        ensures
            r == self@.len(),
    {
        self.dims.len()
    }

    /// Total number of elements: the product of all dimension sizes,
    /// 1 for a rank-0 shape.
    pub fn numel(&self) -> (r: usize)
        requires
            shape_products_fit(self@),
        ensures
            r == suffix_prod(self@, 0),
    {
        let n = self.dims.len();
        let mut acc: usize = 1;
        let mut i: usize = n;
        while i > 0
            invariant
                0 <= i <= n,
                n == self@.len(),
                shape_products_fit(self@),
                acc == suffix_prod(self@, i as int),
            decreases i,
        {
            i -= 1;
            assert(suffix_prod(self@, i as int) == self@[i as int] * suffix_prod(self@, i + 1));
            acc = self.dims[i] * acc;
        }
        acc
    }

    /// The element count, computed with overflow checks: `None` exactly
    /// when some suffix product of the dimensions does not fit a machine
    /// word, so callers can test the precondition of `numel` at run
    /// time.
    pub fn checked_numel(&self) -> (r: Option<usize>)
        ensures
            (r is Some) == shape_products_fit(self@),
            r is Some ==> r->Some_0 == suffix_prod(self@, 0),
    {
        let n = self.dims.len();
        let mut acc: usize = 1;
        let mut i: usize = n;
        while i > 0
            invariant
                0 <= i <= n,
                n == self@.len(),
                acc == suffix_prod(self@, i as int),
                forall|k: int| i <= k <= n ==> suffix_prod(self@, k) <= usize::MAX,
            decreases i,
        {
            i -= 1;
            let d = self.dims[i];
            proof {
                assert(suffix_prod(self@, i as int) == (self@[i as int]
                    * suffix_prod(self@, i + 1)) as nat);
            }
            if d != 0 && acc > usize::MAX / d {
                proof {
                    assert(d * acc > usize::MAX) by (nonlinear_arith)
                        requires
                            d >= 1,
                            acc > usize::MAX / d,
                            usize::MAX / d == usize::MAX as int / d as int,
                    ;
                    assert(!shape_products_fit(self@));
                }
                return None;
            }
            proof {
                if d == 0 {
                    assert(d * acc == 0) by (nonlinear_arith)
                        requires
                            d == 0,
                    ;
                } else {
                    assert(d * acc <= usize::MAX) by (nonlinear_arith)
                        requires
                            d >= 1,
                            acc <= usize::MAX / d,
                            usize::MAX / d == usize::MAX as int / d as int,
                    ;
                }
            }
            acc = d * acc;
        }
        proof {
            assert forall|k: int| 0 <= k <= self@.len() implies suffix_prod(self@, k)
                <= usize::MAX by {}
        }
        Some(acc)
    }

    /// The size of dimension `i`.
    pub fn dim(&self, i: usize) -> (r: usize)
        requires
            i < self@.len(),
        ensures
            r == self@[i as int],
    {
        self.dims[i]
    }

    /// The underlying dimension sizes.
    pub fn dims(&self) -> (r: &[usize])
        ensures
            r@ == self@,
    {
        self.dims.as_slice()
    }

    /// Row-major contiguous strides: `strides[k]` is the product of all
    /// dimensions after `k`; empty for a rank-0 shape.
    pub fn strides(&self) -> (r: Vec<usize>)
        requires
            shape_products_fit(self@),
        ensures
            r@ == spec_strides(self@),
    {
        let n = self.dims.len();
        if n == 0 {
            let r: Vec<usize> = Vec::new();
            assert(r@ =~= spec_strides(self@));
            return r;
        }
        let mut strides: Vec<usize> = Vec::new();
        let mut j: usize = 0;
        while j < n
            invariant
                0 <= j <= n,
                n == self@.len(),
                strides@.len() == j,
            decreases n - j,
        {
            strides.push(0);
            j += 1;
        }
        strides.set(n - 1, 1);
        assert(strides@[n - 1] == suffix_prod(self@, n as int) as usize);
        let mut i: usize = n - 1;
        while i > 0
            invariant
                0 <= i <= n - 1,
                n == self@.len(),
                strides@.len() == n,
                shape_products_fit(self@),
                forall|k: int| i <= k < n ==> strides@[k] == suffix_prod(self@, k + 1),
            decreases i,
        {
            i -= 1;
            assert(suffix_prod(self@, i + 1) == self@[i + 1] * suffix_prod(self@, i + 2));
            assert(suffix_prod(self@, i + 1) <= usize::MAX);
            let v: usize = self.dims[i + 1] * strides[i + 1];
            strides.set(i, v);
        }
        assert(strides@ =~= spec_strides(self@));
        strides
    }

    /// Whether the given strides are exactly the row-major contiguous
    /// strides of this shape.
    pub fn is_contiguous(&self, strides: &[usize]) -> (r: bool)
        requires
            shape_products_fit(self@),
        ensures
            r == (strides@ =~= spec_strides(self@)),
    {
        if strides.len() != self.dims.len() {
            return false;
        }
        let expected = self.strides();
        let mut i: usize = 0;
        while i < expected.len()
            invariant
                0 <= i <= expected@.len(),
                expected@ == spec_strides(self@),
                strides@.len() == expected@.len(),
                forall|k: int| 0 <= k < i ==> strides@[k] == expected@[k],
            decreases expected@.len() - i,
        {
            if strides[i] != expected[i] {
                return false;
            }
            i += 1;
        }
        proof {
            assert(strides@ =~= spec_strides(self@));
        }
        true
    }

    /// The broadcast of two shapes under the right-aligned numpy rules:
    /// pad the shorter shape with ones on the left; at each position the
    /// sizes must be equal or one of them 1, and the output is their
    /// maximum.  Incompatible pairs yield `BroadcastError`.
    pub fn broadcast_shape(a: &Shape, b: &Shape) -> (r: Result<Shape, TensorError>)
        ensures
            r is Ok <==> bc_compat(a@, b@),
            r is Ok ==> r->Ok_0@ == bc_result(a@, b@),
            r is Err ==> (r->Err_0 matches TensorError::BroadcastError { a: ea, b: eb }
                && ea@ == a@ && eb@ == b@),
    {
        let a_n = a.dims.len();
        let b_n = b.dims.len();
        let max_ndim = if a_n > b_n { a_n } else { b_n };
        let mut rev: Vec<usize> = Vec::new();

        let mut i: usize = 0;
        while i < max_ndim
            invariant
                0 <= i <= max_ndim,
                a_n == a@.len(),
                b_n == b@.len(),
                max_ndim == vstd::math::max(a@.len() as int, b@.len() as int),
                rev@.len() == i,
                forall|k: int| 0 <= k < i ==> bc_dim_ok(bc_dim(a@, k), bc_dim(b@, k)),
                forall|k: int|
                    0 <= k < i ==> rev@[k] == bc_dim_merge(bc_dim(a@, k), bc_dim(b@, k)),
            decreases max_ndim - i,
        {
            let da: usize = if i < a_n {
                a.dims[a_n - 1 - i]
            } else {
                1
            };
            let db: usize = if i < b_n {
                b.dims[b_n - 1 - i]
            } else {
                1
            };
            assert(da == bc_dim(a@, i as int));
            assert(db == bc_dim(b@, i as int));

            if da == db {
                rev.push(da);
            } else if da == 1 {
                rev.push(db);
            } else if db == 1 {
                rev.push(da);
            } else {
                return Err(TensorError::BroadcastError { a: a.dims.clone(), b: b.dims.clone() });
            }
            i += 1;
        }

        let mut result: Vec<usize> = Vec::new();
        let mut j: usize = max_ndim;
        while j > 0
            invariant
                0 <= j <= max_ndim,
                rev@.len() == max_ndim,
                result@.len() == max_ndim - j,
                forall|k: int| 0 <= k < max_ndim - j ==> result@[k] == rev@[max_ndim - 1 - k],
            decreases j,
        {
            j -= 1;
            let v = rev[j];
            result.push(v);
        }
        proof {
            assert(result@ =~= bc_result(a@, b@));
        }
        Ok(Shape::new(result))
    }
}

/// Broadcasting is commutative: the two operand orders agree on
/// compatibility and, when compatible, on the resulting shape.
pub proof fn lemma_broadcast_commutative(a: Seq<usize>, b: Seq<usize>)
    ensures
        bc_compat(a, b) == bc_compat(b, a),
        bc_compat(a, b) ==> bc_result(a, b) =~= bc_result(b, a),
{
    assert forall|i: int|
        0 <= i < vstd::math::max(a.len() as int, b.len() as int) && bc_dim_ok(
            bc_dim(a, i),
            bc_dim(b, i),
        ) implies bc_dim_ok(bc_dim(b, i), bc_dim(a, i)) && bc_dim_merge(
        bc_dim(a, i),
        bc_dim(b, i),
    ) == bc_dim_merge(bc_dim(b, i), bc_dim(a, i)) by {}
}

/// A shape broadcast against itself is itself.
pub proof fn lemma_broadcast_identity(a: Seq<usize>)
    ensures
        bc_compat(a, a),
        bc_result(a, a) =~= a,
{
}

} // verus!
