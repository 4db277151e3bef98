//! The GGUF tensor-info table: name, dimensions, data type and offset of
//! each tensor in the data region.

use vstd::prelude::*;

use crate::dtype::{spec_dtype_of_gguf_id, DType};
use crate::error::ModelError;
use crate::gguf::metadata::spec_read_string;
use crate::gguf::wire;
use vstd::bytes::{spec_u32_from_le_bytes, spec_u64_from_le_bytes};

verus! {

/// Describes a single tensor stored within a GGUF file.
#[derive(Debug, PartialEq)]
pub struct GgufTensorInfo {
    /// Tensor name, as UTF-8 bytes (for example "blk.0.attn_q.weight").
    pub name: Vec<u8>,
    /// Number of dimensions.
    pub n_dims: u32,
    /// Size of each dimension.
    pub dims: Vec<u64>,
    /// Data type of the stored tensor data.
    pub dtype: DType,
    /// Byte offset of this tensor's data within the tensor-data region.
    pub offset: u64,
}

/// Mathematical image of a tensor-info entry.
pub struct SpecTensorInfo {
    pub name: Seq<u8>,
    pub n_dims: u32,
    pub dims: Seq<u64>,
    pub dtype: DType,
    pub offset: u64,
}

impl View for GgufTensorInfo {
    type V = SpecTensorInfo;

    open spec fn view(&self) -> SpecTensorInfo {
        SpecTensorInfo {
            name: self.name@,
            n_dims: self.n_dims,
            dims: self.dims@,
            dtype: self.dtype,
            offset: self.offset,
        }
    }
}

/// Product of all dimension sizes; 1 for an empty list.
pub open spec fn spec_numel(dims: Seq<u64>) -> nat
    decreases dims.len(),
{
    if dims.len() == 0 {
        1
    } else {
        (spec_numel(dims.drop_last()) * dims.last()) as nat
    }
}

/// Every prefix product of the dimension list fits in a machine word.
pub open spec fn dims_products_fit(dims: Seq<u64>) -> bool {
    forall|k: int| 0 <= k <= dims.len() ==> spec_numel(#[trigger] dims.subrange(0, k)) <= usize::MAX
}

/// Byte size of the tensor's raw data: whole blocks, the last one padded.
pub open spec fn spec_data_size(dims: Seq<u64>, dtype: DType) -> nat {
    let n = spec_numel(dims) as int;
    let b = dtype.spec_block_size() as int;
    ((n / b + (if n % b == 0 { 0int } else { 1int })) * dtype.spec_bytes_per_block() as int) as nat
}

/// What a tensor-info entry at `pos` denotes: a GGUF string name, a u32
/// dimension count, that many u64 dimensions, a u32 GGUF type ID that must
/// map to a supported `DType`, and a u64 offset.
pub open spec fn spec_read_tensor_info(data: Seq<u8>, pos: int) -> Option<(SpecTensorInfo, int)> {
    match spec_read_string(data, pos) {
        Option::None => Option::None,
        Option::Some((nm, p1)) => {
            if p1 + 4 > data.len() {
                Option::None
            } else {
                let nd = spec_u32_from_le_bytes(data.subrange(p1, p1 + 4));
                let p2 = p1 + 4;
                if p2 + 8 * nd + 12 > data.len() {
                    Option::None
                } else {
                    let dims = Seq::new(
                        nd as nat,
                        |i: int| spec_u64_from_le_bytes(data.subrange(p2 + 8 * i, p2 + 8 * i + 8)),
                    );
                    let tpos = p2 + 8 * nd;
                    let tid = spec_u32_from_le_bytes(data.subrange(tpos, tpos + 4));
                    match spec_dtype_of_gguf_id(tid) {
                        Option::None => Option::None,
                        Option::Some(dt) => Option::Some(
                            (
                                SpecTensorInfo {
                                    name: nm,
                                    n_dims: nd,
                                    dims: dims,
                                    dtype: dt,
                                    offset: spec_u64_from_le_bytes(
                                        data.subrange(tpos + 4, tpos + 12),
                                    ),
                                },
                                tpos + 12,
                            ),
                        ),
                    }
                }
            }
        },
    }
}

/// The unsupported GGUF type ID of the entry at `pos`, when the entry
/// parses up to its type ID and that ID maps to no `DType`.
pub open spec fn spec_info_bad_type_id(data: Seq<u8>, pos: int) -> Option<u32> {
    match spec_read_string(data, pos) {
        Option::None => Option::None,
        Option::Some((nm, p1)) => {
            if p1 + 4 > data.len() {
                Option::None
            } else {
                let nd = spec_u32_from_le_bytes(data.subrange(p1, p1 + 4));
                let p2 = p1 + 4;
                if p2 + 8 * nd + 12 > data.len() {
                    Option::None
                } else {
                    let tid = spec_u32_from_le_bytes(
                        data.subrange(p2 + 8 * nd, p2 + 8 * nd + 4),
                    );
                    if spec_dtype_of_gguf_id(tid) is None {
                        Option::Some(tid)
                    } else {
                        Option::None
                    }
                }
            }
        },
    }
}

/// The first unsupported tensor type ID among `n` entries at `pos`, in
/// stream order, when the stream parses that far.
pub open spec fn spec_infos_bad_type_id(data: Seq<u8>, pos: int, n: nat) -> Option<u32>
    decreases n,
{
    if pos < 0 || pos > data.len() || n == 0 {
        Option::None
    } else {
        match spec_info_bad_type_id(data, pos) {
            Option::Some(tid) => Option::Some(tid),
            Option::None => match spec_read_tensor_info(data, pos) {
                Option::None => Option::None,
                Option::Some((info, end)) => if end <= pos || end > data.len() {
                    Option::None
                } else {
                    spec_infos_bad_type_id(data, end, (n - 1) as nat)
                },
            },
        }
    }
}

/// What `n` consecutive tensor-info entries at `pos` denote.
pub open spec fn spec_read_infos(data: Seq<u8>, pos: int, n: nat) -> Option<
    (Seq<SpecTensorInfo>, int),
>
    decreases n,
{
    if pos < 0 || pos > data.len() {
        Option::None
    } else if n == 0 {
        Option::Some((Seq::empty(), pos))
    } else {
        match spec_read_tensor_info(data, pos) {
            Option::None => Option::None,
            Option::Some((info, end)) => if end <= pos || end > data.len() {
                Option::None
            } else {
                match spec_read_infos(data, end, (n - 1) as nat) {
                    Option::None => Option::None,
                    Option::Some((infos, fin)) => Option::Some((seq![info] + infos, fin)),
                }
            },
        }
    }
}

impl GgufTensorInfo {
    /// Total number of elements in this tensor.
    pub fn numel(&self) -> (r: usize)
        requires
            dims_products_fit(self.dims@),
        ensures
            r == spec_numel(self.dims@),
    {
        let n = self.dims.len();
        let mut acc: usize = 1;
        let mut i: usize = 0;
        proof {
            assert(self.dims@.subrange(0, 0) =~= Seq::<u64>::empty());
        }
        while i < n
            invariant
                0 <= i <= n,
                n == self.dims@.len(),
                dims_products_fit(self.dims@),
                acc == spec_numel(self.dims@.subrange(0, i as int)),
            decreases n - i,
        {
            let d = self.dims[i];
            proof {
                assert(self.dims@.subrange(0, i + 1).drop_last() =~= self.dims@.subrange(
                    0,
                    i as int,
                ));
                assert(self.dims@.subrange(0, i + 1).last() == self.dims@[i as int]);
                assert(spec_numel(self.dims@.subrange(0, i + 1)) <= usize::MAX);
            }
            if d > usize::MAX as u64 {
                proof {
                    assert(spec_numel(self.dims@.subrange(0, i + 1)) == acc * self.dims@[i as int]);
                    assert(acc >= 1 ==> acc * self.dims@[i as int] >= self.dims@[i as int]) by (
                    nonlinear_arith);
                    assert(acc == 0 ==> spec_numel(self.dims@.subrange(0, i as int)) == 0);
                }
                // acc must be 0 here, or the prefix product would not fit.
                assert(acc == 0);
                proof {
                    assert(acc * self.dims@[i as int] == 0) by (nonlinear_arith)
                        requires acc == 0;
                }
                acc = 0;
            } else {
                let du = d as usize;
                proof {
                    assert(acc * du <= usize::MAX);
                }
                acc = acc * du;
            }
            i += 1;
        }
        proof {
            assert(self.dims@.subrange(0, n as int) =~= self.dims@);
        }
        acc
    }

    /// Byte size of this tensor's raw data in the file: the element count
    /// rounded up to whole blocks, times the bytes per block.
    pub fn data_size(&self) -> (r: usize)
        requires
            dims_products_fit(self.dims@),
            spec_data_size(self.dims@, self.dtype) <= usize::MAX,
        ensures
            r == spec_data_size(self.dims@, self.dtype),
    {
        let numel = self.numel();
        let block_size = self.dtype.block_size();
        let n_blocks = numel / block_size + (if numel % block_size != 0 {
            1
        } else {
            0
        });
        let bpb = self.dtype.size_in_bytes();
        proof {
            assert(n_blocks * bpb == spec_data_size(self.dims@, self.dtype));
        }
        n_blocks * bpb
    }

    /// The element count, computed with overflow checks: `None` exactly
    /// when some prefix product of the dimensions does not fit a machine
    /// word, so callers can test the precondition of `numel` at run time.
    pub fn checked_numel(&self) -> (r: Option<usize>)
        ensures
            (r is Some) == dims_products_fit(self.dims@),
            r is Some ==> r->Some_0 == spec_numel(self.dims@),
    {
        let n = self.dims.len();
        let mut acc: usize = 1;
        let mut i: usize = 0;
        proof {
            assert(self.dims@.subrange(0, 0) =~= Seq::<u64>::empty());
        }
        while i < n
            invariant
                0 <= i <= n,
                n == self.dims@.len(),
                acc == spec_numel(self.dims@.subrange(0, i as int)),
                forall|k: int|
                    0 <= k <= i ==> spec_numel(#[trigger] self.dims@.subrange(0, k)) <= usize::MAX,
            decreases n - i,
        {
            let d = self.dims[i];
            proof {
                assert(self.dims@.subrange(0, i + 1).drop_last() =~= self.dims@.subrange(
                    0,
                    i as int,
                ));
                assert(self.dims@.subrange(0, i + 1).last() == self.dims@[i as int]);
            }
            if d > usize::MAX as u64 {
                if acc == 0 {
                    proof {
                        assert(acc * self.dims@[i as int] == 0) by (nonlinear_arith)
                            requires
                                acc == 0,
                        ;
                    }
                } else {
                    proof {
                        assert(acc * self.dims@[i as int] > usize::MAX) by (nonlinear_arith)
                            requires
                                acc >= 1,
                                self.dims@[i as int] > usize::MAX,
                        ;
                        assert(!dims_products_fit(self.dims@));
                    }
                    return None;
                }
            } else {
                let du = d as usize;
                if acc != 0 && du != 0 && acc > usize::MAX / du {
                    proof {
                        assert(acc * du > usize::MAX) by (nonlinear_arith)
                            requires
                                du >= 1,
                                acc > usize::MAX / du,
                                usize::MAX / du == usize::MAX as int / du as int,
                        ;
                        assert(!dims_products_fit(self.dims@));
                    }
                    return None;
                }
                proof {
                    if acc == 0 || du == 0 {
                        assert(acc * du <= usize::MAX) by (nonlinear_arith)
                            requires
                                acc == 0 || du == 0,
                        ;
                    } else {
                        assert(acc * du <= usize::MAX) by (nonlinear_arith)
                            requires
                                du >= 1,
                                acc <= usize::MAX / du,
                                usize::MAX / du == usize::MAX as int / du as int,
                        ;
                    }
                }
                acc = acc * du;
            }
            i += 1;
        }
        proof {
            assert(self.dims@.subrange(0, n as int) =~= self.dims@);
            assert forall|k: int| 0 <= k <= self.dims@.len() implies spec_numel(
                #[trigger] self.dims@.subrange(0, k),
            ) <= usize::MAX by {}
        }
        Some(acc)
    }

    /// The raw data size, computed with overflow checks: `None` exactly
    /// when the element count or the byte size does not fit a machine
    /// word, so callers can test the precondition of `data_size` at run
    /// time.
    pub fn checked_data_size(&self) -> (r: Option<usize>)
        ensures
            (r is Some) == (dims_products_fit(self.dims@) && spec_data_size(self.dims@, self.dtype)
                <= usize::MAX),
            r is Some ==> r->Some_0 == spec_data_size(self.dims@, self.dtype),
    {
        let numel = match self.checked_numel() {
            Some(v) => v,
            None => {
                return None;
            },
        };
        let block_size = self.dtype.block_size();
        let n_blocks = numel / block_size + (if numel % block_size != 0 {
            1
        } else {
            0
        });
        let bpb = self.dtype.size_in_bytes();
        if n_blocks > usize::MAX / bpb {
            proof {
                assert(n_blocks * bpb > usize::MAX) by (nonlinear_arith)
                    requires
                        bpb >= 1,
                        n_blocks > usize::MAX / bpb,
                        usize::MAX / bpb == usize::MAX as int / bpb as int,
                ;
            }
            return None;
        }
        proof {
            assert(n_blocks * bpb <= usize::MAX) by (nonlinear_arith)
                requires
                    bpb >= 1,
                    n_blocks <= usize::MAX / bpb,
                    usize::MAX / bpb == usize::MAX as int / bpb as int,
            ;
            assert(n_blocks * bpb == spec_data_size(self.dims@, self.dtype));
        }
        Some(n_blocks * bpb)
    }

}

/// Parses `n_tensors` tensor-info entries starting at `pos`.
pub fn parse_tensor_infos(data: &[u8], pos: usize, n_tensors: u64) -> (r: Result<
    (Vec<GgufTensorInfo>, usize),
    ModelError,
>)
    ensures
        (r is Ok) == (spec_read_infos(data@, pos as int, n_tensors as nat) is Some),
        r is Err ==> r->Err_0 is Io || r->Err_0 is Other || r->Err_0 is UnsupportedGgufType,
        spec_infos_bad_type_id(data@, pos as int, n_tensors as nat) matches Option::Some(tid) ==> (
        r matches Err(ModelError::UnsupportedGgufType(id)) && id == tid),
        r matches Err(ModelError::UnsupportedGgufType(id)) ==> spec_infos_bad_type_id(
            data@,
            pos as int,
            n_tensors as nat,
        ) == Option::Some(id),
        r is Ok ==> Seq::new(r->Ok_0.0@.len(), |i: int| r->Ok_0.0@[i]@) == spec_read_infos(
            data@,
            pos as int,
            n_tensors as nat,
        )->Some_0.0 && r->Ok_0.1 == spec_read_infos(data@, pos as int, n_tensors as nat)->Some_0.1
            && pos <= r->Ok_0.1 <= data@.len(),
{
    if pos > data.len() {
        return Err(ModelError::Io);
    }
    let mut infos: Vec<GgufTensorInfo> = Vec::new();
    let mut cur: usize = pos;
    proof {
        match spec_read_infos(data@, pos as int, n_tensors as nat) {
            Option::None => {},
            Option::Some((es, fin)) => {
                assert(Seq::new(infos@.len(), |i: int| infos@[i]@) + es =~= es);
            },
        }
    }
    let mut i: u64 = 0;
    while i < n_tensors
        invariant
            0 <= i <= n_tensors,
            pos <= cur <= data@.len(),
            infos@.len() == i,
            match spec_read_infos(data@, cur as int, (n_tensors - i) as nat) {
                Option::None => spec_read_infos(data@, pos as int, n_tensors as nat) is None,
                Option::Some((es, fin)) => spec_read_infos(data@, pos as int, n_tensors as nat)
                    == Option::Some((Seq::new(infos@.len(), |k: int| infos@[k]@) + es, fin)),
            },
            spec_infos_bad_type_id(data@, pos as int, n_tensors as nat) == spec_infos_bad_type_id(
                data@,
                cur as int,
                (n_tensors - i) as nat,
            ),
        decreases n_tensors - i,
    {
        let ghost rem = (n_tensors - i) as nat;
        match read_tensor_info(data, cur) {
            Ok((info, end)) => {
                proof {
                    assert(spec_info_bad_type_id(data@, cur as int) is None);
                    assert(spec_infos_bad_type_id(data@, cur as int, rem)
                        == spec_infos_bad_type_id(data@, end as int, (rem - 1) as nat));
                    assert(spec_read_infos(data@, cur as int, rem) == (
                    match spec_read_infos(data@, end as int, (rem - 1) as nat) {
                        Option::None => Option::<(Seq<SpecTensorInfo>, int)>::None,
                        Option::Some((es, fin)) => Option::Some((seq![info@] + es, fin)),
                    }));
                    match spec_read_infos(data@, end as int, (rem - 1) as nat) {
                        Option::None => {},
                        Option::Some((es, fin)) => {
                            assert(Seq::new(infos@.push(info).len(), |k: int| infos@.push(info)[k]@)
                                =~= Seq::new(infos@.len(), |k: int| infos@[k]@) + seq![info@]);
                            assert(Seq::new(infos@.len(), |k: int| infos@[k]@) + (seq![info@] + es)
                                =~= (Seq::new(infos@.len(), |k: int| infos@[k]@) + seq![info@])
                                + es);
                        },
                    }
                }
                infos.push(info);
                cur = end;
            },
            Err(e) => {
                proof {
                    assert(spec_read_infos(data@, cur as int, rem) is None);
                    match spec_info_bad_type_id(data@, cur as int) {
                        Option::Some(tid) => {
                            assert(spec_infos_bad_type_id(data@, cur as int, rem)
                                == Option::Some(tid));
                        },
                        Option::None => {
                            assert(spec_read_tensor_info(data@, cur as int) is None);
                            assert(spec_infos_bad_type_id(data@, cur as int, rem) is None);
                        },
                    }
                }
                return Err(e);
            },
        }
        i += 1;
    }
    proof {
        assert(spec_read_infos(data@, cur as int, 0) == Option::Some(
            (Seq::<SpecTensorInfo>::empty(), cur as int),
        ));
        assert(Seq::new(infos@.len(), |k: int| infos@[k]@) + Seq::<SpecTensorInfo>::empty()
            =~= Seq::new(infos@.len(), |k: int| infos@[k]@));
    }
    Ok((infos, cur))
}

/// Reads one tensor-info entry.
pub fn read_tensor_info(data: &[u8], pos: usize) -> (r: Result<
    (GgufTensorInfo, usize),
    ModelError,
>)
    ensures
        (r is Ok) == (spec_read_tensor_info(data@, pos as int) is Some),
        r is Err ==> r->Err_0 is Io || r->Err_0 is Other || r->Err_0 is UnsupportedGgufType,
        spec_info_bad_type_id(data@, pos as int) matches Option::Some(tid) ==> (r matches Err(
        ModelError::UnsupportedGgufType(id),
        ) && id == tid),
        r matches Err(ModelError::UnsupportedGgufType(id)) ==> spec_info_bad_type_id(
            data@,
            pos as int,
        ) == Option::Some(id),
        r is Ok ==> r->Ok_0.0@ == spec_read_tensor_info(data@, pos as int)->Some_0.0 && r->Ok_0.1
            == spec_read_tensor_info(data@, pos as int)->Some_0.1 && pos < r->Ok_0.1
            <= data@.len(),
{
    let (name, p1) = match crate::gguf::metadata::read_gguf_string(data, pos) {
        Ok(v) => v,
        Err(e) => {
            return Err(e);
        },
    };
    let (n_dims, p2) = match wire::read_u32(data, p1) {
        Ok(v) => v,
        Err(e) => {
            return Err(ModelError::Io);
        },
    };
    // All remaining bytes of the entry: the dimensions, the type ID and
    // the offset.  Checking the whole span up front keeps the later reads
    // in bounds.
    let needed: u64 = 8u64 * (n_dims as u64) + 12;
    if (data.len() as u64) - (p2 as u64) < needed {
        proof {
            assert(p2 + 8 * n_dims + 12 > data@.len());
        }
        return Err(ModelError::Io);
    }
    proof {
        assert(p2 + 8 * n_dims + 12 <= data@.len());
    }
    let mut dims: Vec<u64> = Vec::new();
    let mut i: usize = 0;
    let nd = n_dims as usize;
    let mut dpos: usize = p2;
    while i < nd
        invariant
            0 <= i <= nd,
            nd == n_dims,
            dpos == p2 + 8 * i,
            p2 + 8 * n_dims + 12 <= data@.len(),
            p2 <= data@.len(),
            dims@.len() == i,
            forall|k: int|
                0 <= k < i ==> dims@[k] == spec_u64_from_le_bytes(
                    data@.subrange(p2 + 8 * k, p2 + 8 * k + 8),
                ),
        decreases nd - i,
    {
        proof {
            assert(8 * (i as int) + 8 <= 8 * (n_dims as int)) by (nonlinear_arith)
                requires i < n_dims;
            assert(dpos + 8 <= data@.len());
        }
        let (d, _) = match wire::read_u64(data, dpos) {
            Ok(v) => v,
            Err(e) => {
                proof {
                    assert(false);
                }
                return Err(ModelError::Io);
            },
        };
        dims.push(d);
        dpos += 8;
        i += 1;
    }
    proof {
        assert(8 * (nd as int) == 8 * (n_dims as int));
    }
    let tpos = dpos;
    proof {
        assert(tpos == p2 + 8 * (n_dims as int));
    }
    let (tid, p3) = match wire::read_u32(data, tpos) {
        Ok(v) => v,
        Err(e) => {
            proof {
                assert(false);
            }
            return Err(ModelError::Io);
        },
    };
    let dtype = match DType::from_gguf_type(tid) {
        Some(dt) => dt,
        None => {
            return Err(ModelError::UnsupportedGgufType(tid));
        },
    };
    let (offset, p4) = match wire::read_u64(data, p3) {
        Ok(v) => v,
        Err(e) => {
            proof {
                assert(false);
            }
            return Err(ModelError::Io);
        },
    };
    proof {
        assert(Seq::new(
            n_dims as nat,
            |k: int| spec_u64_from_le_bytes(data@.subrange(p2 + 8 * k, p2 + 8 * k + 8)),
        ) =~= dims@);
    }
    Ok((GgufTensorInfo { name, n_dims, dims, dtype, offset }, p4))
}

} // verus!
