//! Element encodings for tensor data stored in a GGUF file.

use vstd::prelude::*;

verus! {

/// Supported data types for tensor storage.
///
/// `F32` and `F16` store one element per 4 or 2 bytes; `Q4_0` and `Q8_0`
/// are block-quantized formats storing 32 elements per block.
#[derive(Debug, Clone, Copy, PartialEq, Eq, Structural, Hash)]
pub enum DType {
    /// 32-bit IEEE 754 value, 4 bytes per element.
    F32,
    /// 16-bit IEEE 754 value, 2 bytes per element.
    F16,
    /// Block of 32 elements in 18 bytes: a 2-byte half-precision scale
    /// followed by 16 bytes holding 32 unsigned nibbles, lower nibble first.
    Q4_0,
    /// Block of 32 elements in 34 bytes: a 2-byte half-precision scale
    /// followed by 32 signed 8-bit values.
    Q8_0,
}

impl DType {
    /// Size in bytes of a single element for non-quantized types,
    /// or of a whole block for quantized types.
    pub fn size_in_bytes(&self) -> (r: usize)
        ensures
            *self == DType::F32 ==> r == 4,
            *self == DType::F16 ==> r == 2,
            *self == DType::Q4_0 ==> r == 18,
            *self == DType::Q8_0 ==> r == 34,
    {
        match self {
            DType::F32 => 4,
            DType::F16 => 2,
            DType::Q4_0 => 18,
            DType::Q8_0 => 34,
        }
    }

    /// Maps a GGUF tensor type ID to a `DType`; any other ID is unsupported.
    pub fn from_gguf_type(id: u32) -> (r: Option<DType>)
        ensures
            r == spec_dtype_of_gguf_id(id),
    {
        match id {
            0 => Some(DType::F32),
            1 => Some(DType::F16),
            2 => Some(DType::Q4_0),
            8 => Some(DType::Q8_0),
            _ => None,
        }
    }

    /// The GGUF tensor type ID of this `DType`.
    pub fn to_gguf_type(&self) -> (r: u32)
        ensures
            spec_dtype_of_gguf_id(r) == Some(*self),
    {
        match self {
            DType::F32 => 0,
            DType::F16 => 1,
            DType::Q4_0 => 2,
            DType::Q8_0 => 8,
        }
    }

    /// Number of elements per quantization block; 1 for non-quantized types.
    pub fn block_size(&self) -> (r: usize)
        ensures
            r == self.spec_block_size(),
    {
        match self {
            DType::F32 | DType::F16 => 1,
            DType::Q4_0 | DType::Q8_0 => 32,
        }
    }

    /// True exactly for the block-quantized formats.
    pub fn is_quantized(&self) -> (r: bool)
        ensures
            r == (*self == DType::Q4_0 || *self == DType::Q8_0),
    {
        matches!(self, DType::Q4_0 | DType::Q8_0)
    }

    /// Elements per block, as a mathematical value.
    pub open spec fn spec_block_size(&self) -> nat {
        match self {
            DType::F32 | DType::F16 => 1,
            DType::Q4_0 | DType::Q8_0 => 32,
        }
    }

    /// Bytes per block, as a mathematical value.
    pub open spec fn spec_bytes_per_block(&self) -> nat {
        match self {
            DType::F32 => 4,
            DType::F16 => 2,
            DType::Q4_0 => 18,
            DType::Q8_0 => 34,
        }
    }
}

/// The `DType`, if any, that a GGUF tensor type ID denotes.
pub open spec fn spec_dtype_of_gguf_id(id: u32) -> Option<DType> {
    if id == 0 {
        Some(DType::F32)
    } else if id == 1 {
        Some(DType::F16)
    } else if id == 2 {
        Some(DType::Q4_0)
    } else if id == 8 {
        Some(DType::Q8_0)
    } else {
        None
    }
}

} // verus!
