//! The fixed 24-byte GGUF file header.

use vstd::prelude::*;

use crate::error::ModelError;
use crate::gguf::wire;

verus! {

/// The four magic bytes that open every GGUF file: ASCII "GGUF".
pub open spec fn spec_gguf_magic() -> Seq<u8> {
    seq![0x47u8, 0x47u8, 0x55u8, 0x46u8]
}

/// Parsed GGUF file header.
#[derive(Debug, Clone, Copy, PartialEq, Eq, Structural)]
pub struct GgufHeader {
    /// GGUF format version; only version 3 is supported.
    pub version: u32,
    /// Number of tensors stored in the file.
    pub n_tensors: u64,
    /// Number of key-value metadata entries.
    pub n_kv: u64,
}

/// What the 24-byte header of `data` holds: the header on success, or the
/// first failure in parse order (truncation, wrong magic, wrong version).
pub open spec fn spec_parse_header(data: Seq<u8>) -> Result<GgufHeader, ModelError> {
    if data.len() < 4 {
        Err(ModelError::Io)
    } else if data.subrange(0, 4) != spec_gguf_magic() {
        Err(
            ModelError::InvalidMagic([data[0], data[1], data[2], data[3]]),
        )
    } else if data.len() < 8 {
        Err(ModelError::Io)
    } else if vstd::bytes::spec_u32_from_le_bytes(data.subrange(4, 8)) != 3 {
        Err(
            ModelError::UnsupportedVersion(vstd::bytes::spec_u32_from_le_bytes(data.subrange(4, 8))),
        )
    } else if data.len() < 24 {
        Err(ModelError::Io)
    } else {
        Ok(
            GgufHeader {
                version: 3,
                n_tensors: vstd::bytes::spec_u64_from_le_bytes(data.subrange(8, 16)),
                n_kv: vstd::bytes::spec_u64_from_le_bytes(data.subrange(16, 24)),
            },
        )
    }
}

impl GgufHeader {
    /// Parses the header at the start of `data`: the magic, the version
    /// (only 3 accepted), the tensor count and the KV count, all
    /// little-endian.  On success the next unread position is 24.
    pub fn parse(data: &[u8]) -> (r: Result<(GgufHeader, usize), ModelError>)
        ensures
            (r is Ok) == (spec_parse_header(data@) is Ok),
            r is Ok ==> r->Ok_0.0 == spec_parse_header(data@)->Ok_0 && r->Ok_0.1 == 24,
            r is Err ==> r->Err_0 == spec_parse_header(data@)->Err_0,
    {
        if data.len() < 4 {
            return Err(ModelError::Io);
        }
        let b0 = *vstd::slice::slice_index_get(data, 0);
        let b1 = *vstd::slice::slice_index_get(data, 1);
        let b2 = *vstd::slice::slice_index_get(data, 2);
        let b3 = *vstd::slice::slice_index_get(data, 3);
        if !(b0 == 0x47 && b1 == 0x47 && b2 == 0x55 && b3 == 0x46) {
            proof {
                assert(data@.subrange(0, 4) =~= seq![data@[0], data@[1], data@[2], data@[3]]);
                assert(spec_gguf_magic() =~= seq![0x47u8, 0x47u8, 0x55u8, 0x46u8]);
            }
            return Err(ModelError::InvalidMagic([b0, b1, b2, b3]));
        }
        proof {
            assert(data@.subrange(0, 4) =~= spec_gguf_magic());
        }
        let (version, p1) = match wire::read_u32(data, 4) {
            Ok(v) => v,
            Err(e) => {
                return Err(ModelError::Io);
            },
        };
        if version != 3 {
            return Err(ModelError::UnsupportedVersion(version));
        }
        let (n_tensors, p2) = match wire::read_u64(data, p1) {
            Ok(v) => v,
            Err(e) => {
                return Err(ModelError::Io);
            },
        };
        let (n_kv, p3) = match wire::read_u64(data, p2) {
            Ok(v) => v,
            Err(e) => {
                return Err(ModelError::Io);
            },
        };
        Ok((GgufHeader { version, n_tensors, n_kv }, p3))
    }
}

} // verus!
