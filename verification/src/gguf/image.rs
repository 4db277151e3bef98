//! A parsed GGUF file: header, metadata, tensor-info table, and the
//! position of the aligned tensor-data region.

use vstd::prelude::*;

use crate::error::ModelError;
use crate::gguf::header::{spec_parse_header, GgufHeader};
use crate::gguf::metadata::{spec_read_entries, GgufMetadata};
use crate::gguf::tensor_info::{
    dims_products_fit, parse_tensor_infos, spec_data_size, spec_read_infos, GgufTensorInfo,
    SpecTensorInfo,
};

verus! {

/// `p` rounded up to the next multiple of 32, the alignment of the
/// tensor-data region.
pub open spec fn spec_align32(p: int) -> int {
    ((p + 31) / 32) * 32
}

/// The views of a vector of tensor-info entries.
pub open spec fn infos_view(infos: Seq<GgufTensorInfo>) -> Seq<SpecTensorInfo> {
    Seq::new(infos.len(), |i: int| infos[i]@)
}

/// Index of the first entry named `name`, if any.
pub open spec fn spec_find_tensor(infos: Seq<SpecTensorInfo>, name: Seq<u8>) -> Option<int>
    decreases infos.len(),
{
    if infos.len() == 0 {
        Option::None
    } else if infos[0].name == name {
        Option::Some(0)
    } else {
        match spec_find_tensor(infos.drop_first(), name) {
            Option::None => Option::None,
            Option::Some(i) => Option::Some(i + 1),
        }
    }
}

/// When the first `i` entries are not named `name` and entry `i` is,
/// `spec_find_tensor` is exactly `i`.
pub proof fn lemma_spec_find_tensor_at(infos: Seq<SpecTensorInfo>, name: Seq<u8>, i: int)
    requires
        0 <= i < infos.len(),
        forall|k: int| 0 <= k < i ==> infos[k].name != name,
        infos[i].name == name,
    ensures
        spec_find_tensor(infos, name) == Option::Some(i),
    decreases i,
{
    if i > 0 {
        lemma_spec_find_tensor_at(infos.drop_first(), name, i - 1);
    }
}

/// When no entry is named `name`, `spec_find_tensor` is `None`.
pub proof fn lemma_spec_find_tensor_none(infos: Seq<SpecTensorInfo>, name: Seq<u8>)
    requires
        forall|k: int| 0 <= k < infos.len() ==> infos[k].name != name,
    ensures
        spec_find_tensor(infos, name) is None,
    decreases infos.len(),
{
    if infos.len() > 0 {
        lemma_spec_find_tensor_none(infos.drop_first(), name);
    }
}

/// Whether the bytes of `data` form a complete GGUF file image: a valid
/// header, `n_kv` metadata entries, `n_tensors` info entries, and a data
/// offset that fits in a machine word.
pub open spec fn spec_image_ok(data: Seq<u8>) -> bool {
    &&& spec_parse_header(data) is Ok
    &&& {
        let h = spec_parse_header(data)->Ok_0;
        let e = spec_read_entries(data, 24, h.n_kv as nat);
        &&& e is Some
        &&& {
            let fr = spec_read_infos(data, e->Some_0.1, h.n_tensors as nat);
            &&& fr is Some
            &&& spec_align32(fr->Some_0.1) <= usize::MAX
        }
    }
}

/// A parsed GGUF file.  The raw bytes themselves stay with the caller
/// (typically a memory map); the image records, in ghost form, which byte
/// sequence it was parsed from, and `tensor_data` asks for those same
/// bytes back.
pub struct GgufFile {
    /// Parsed header (version, tensor and KV counts).
    pub header: GgufHeader,
    /// Parsed metadata key-value entries.
    pub metadata: GgufMetadata,
    /// Parsed tensor info entries.
    pub tensor_infos: Vec<GgufTensorInfo>,
    /// Byte offset where the 32-byte-aligned tensor-data region begins.
    pub data_offset: usize,
    /// The bytes this image was parsed from.
    pub file: Ghost<Seq<u8>>,
}

impl GgufFile {
    /// The parse relations tying every field to the file bytes.
    pub open spec fn wf(&self) -> bool {
        let d = self.file@;
        &&& spec_parse_header(d) == Ok::<GgufHeader, ModelError>(self.header)
        &&& {
            let e = spec_read_entries(d, 24, self.header.n_kv as nat);
            &&& e is Some
            &&& self.metadata@ == e->Some_0.0
            &&& {
                let fr = spec_read_infos(d, e->Some_0.1, self.header.n_tensors as nat);
                &&& fr is Some
                &&& infos_view(self.tensor_infos@) == fr->Some_0.0
                &&& self.data_offset == spec_align32(fr->Some_0.1)
            }
        }
    }

    /// Parses a whole GGUF file image from its bytes: header, metadata,
    /// tensor-info table, and the aligned start of the tensor data.
    pub fn parse(data: &[u8]) -> (r: Result<GgufFile, ModelError>)
        ensures
            (r is Ok) == spec_image_ok(data@),
            r is Ok ==> r->Ok_0.wf() && r->Ok_0.file@ == data@,
            r is Err ==> r->Err_0 is Io || r->Err_0 is Other || r->Err_0 is UnsupportedGgufType
                || r->Err_0 is InvalidMagic || r->Err_0 is UnsupportedVersion,
    {
        let (header, p0) = match GgufHeader::parse(data) {
            Ok(v) => v,
            Err(e) => {
                return Err(e);
            },
        };
        let (metadata, p1) = match GgufMetadata::parse_kv(data, p0, header.n_kv) {
            Ok(v) => v,
            Err(e) => {
                return Err(e);
            },
        };
        let (tensor_infos, p2) = match parse_tensor_infos(data, p1, header.n_tensors) {
            Ok(v) => v,
            Err(e) => {
                return Err(e);
            },
        };
        let rem = p2 % 32;
        let data_offset: usize = if rem == 0 {
            proof {
                assert(spec_align32(p2 as int) == p2 as int) by (nonlinear_arith)
                    requires
                        p2 as int % 32 == 0,
                        p2 >= 0,
                ;
            }
            p2
        } else {
            if p2 > usize::MAX - (32 - rem) {
                proof {
                    assert(spec_align32(p2 as int) == p2 + 32 - p2 as int % 32 > usize::MAX) by (
                    nonlinear_arith)
                        requires
                            p2 as int % 32 != 0,
                            p2 >= 0,
                            p2 > usize::MAX - (32 - p2 as int % 32),
                    ;
                }
                return Err(ModelError::Io);
            }
            proof {
                assert(spec_align32(p2 as int) == p2 + 32 - p2 as int % 32) by (nonlinear_arith)
                    requires
                        p2 as int % 32 != 0,
                        p2 >= 0,
                ;
            }
            p2 + (32 - rem)
        };
        proof {
            assert(infos_view(tensor_infos@) =~= Seq::new(
                tensor_infos@.len(),
                |i: int| tensor_infos@[i]@,
            ));
        }
        Ok(
            GgufFile {
                header,
                metadata,
                tensor_infos,
                data_offset,
                file: Ghost(data@),
            },
        )
    }

    /// The first tensor-info entry with the given name, if any.
    pub fn find_tensor(&self, name: &[u8]) -> (r: Option<&GgufTensorInfo>)
        ensures
            match spec_find_tensor(infos_view(self.tensor_infos@), name@) {
                Option::None => r is None,
                Option::Some(i) => r is Some && (*r->Some_0)@ == infos_view(self.tensor_infos@)[i],
            },
    {
        let ghost views = infos_view(self.tensor_infos@);
        let n = self.tensor_infos.len();
        let mut i: usize = 0;
        while i < n
            invariant
                0 <= i <= n,
                n == self.tensor_infos@.len(),
                views == infos_view(self.tensor_infos@),
                forall|k: int| 0 <= k < i ==> views[k].name != name@,
            decreases n - i,
        {
            let info = &self.tensor_infos[i];
            if crate::bytes_eq(info.name.as_slice(), name) {
                proof {
                    lemma_spec_find_tensor_at(views, name@, i as int);
                }
                return Some(info);
            }
            i += 1;
        }
        proof {
            lemma_spec_find_tensor_none(views, name@);
        }
        None
    }

    /// The raw bytes of one tensor inside the file image.  `data` must be
    /// the same bytes the image was parsed from, and the tensor's span
    /// must lie inside them.
    pub fn tensor_data<'a>(&self, data: &'a [u8], info: &GgufTensorInfo) -> (r: &'a [u8])
        requires
            data@ == self.file@,
            dims_products_fit(info.dims@),
            spec_data_size(info.dims@, info.dtype) <= usize::MAX,
            self.data_offset + info.offset + spec_data_size(info.dims@, info.dtype) <= data@.len(),
        ensures
            r@ == data@.subrange(
                self.data_offset + info.offset,
                self.data_offset + info.offset + spec_data_size(info.dims@, info.dtype),
            ),
    {
        let dlen = data.len();
        proof {
            assert(info.offset as int + self.data_offset as int <= dlen as int);
            assert(info.offset as int <= usize::MAX as int);
        }
        let off = info.offset as usize;
        proof {
            assert(off == info.offset);
            assert(self.data_offset + off <= data@.len());
        }
        let start = self.data_offset + off;
        let size = info.data_size();
        vstd::slice::slice_subrange(data, start, start + size)
    }
}

} // verus!
