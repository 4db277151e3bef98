//! Error types surfaced by the tensor layer and the model core.
//!
//! Keys, tensor names and messages are carried as their raw bytes, which is
//! how they arrive from the container format.

use vstd::prelude::*;

use crate::dtype::DType;

verus! {

/// Errors from the shape / compute layer.
#[derive(Debug, Clone, PartialEq, Eq)]
pub enum TensorError {
    /// Two buffers whose lengths were expected to agree did not.
    ShapeMismatch { expected: Vec<usize>, got: Vec<usize> },
    /// A tensor of one data type where another was expected.
    DTypeMismatch { expected: DType, got: DType },
    /// An axis index at or beyond the tensor's rank.
    InvalidAxis { axis: usize, ndim: usize },
    /// A pair of shapes that no broadcast can reconcile.
    BroadcastError { a: Vec<usize>, b: Vec<usize> },
    /// Inner dimensions of a matrix product disagree.
    MatmulMismatch { m: usize, k: usize, k2: usize, n: usize },
    /// A data type that this operation cannot handle.
    UnsupportedDType,
    /// Anything else, with a byte-string message.
    Other(Vec<u8>),
}

/// Errors from the GGUF reader, tokenizer and model loader.
#[derive(Debug, Clone, PartialEq, Eq)]
pub enum ModelError {
    /// The underlying byte source ended before the structure was complete.
    Io,
    /// The file does not start with the four magic bytes.
    InvalidMagic([u8; 4]),
    /// A container version other than the supported one.
    UnsupportedVersion(u32),
    /// A required metadata key is absent.
    MissingKey(Vec<u8>),
    /// A metadata key is present with a value of another kind.
    TypeMismatch { key: Vec<u8>, expected: GgufValueType, got: GgufValueType },
    /// A GGUF type ID that the reader does not understand.
    UnsupportedGgufType(u32),
    /// A tensor name that the file does not contain.
    TensorNotFound(Vec<u8>),
    /// A model architecture other than the supported one.
    UnsupportedArchitecture(Vec<u8>),
    /// A malformed vocabulary or merge table.
    TokenizerError(Vec<u8>),
    /// A failure propagated from the tensor layer.
    TensorError(TensorError),
    /// A token ID at or beyond the vocabulary size.
    OutOfRange(u32),
    /// Anything else, with a byte-string message.
    Other(Vec<u8>),
}

/// The thirteen kinds of GGUF metadata value, used in type-mismatch reports.
#[derive(Debug, Clone, Copy, PartialEq, Eq, Structural)]
pub enum GgufValueType {
    U8,
    I8,
    U16,
    I16,
    U32,
    I32,
    F32,
    Bool,
    Str,
    Array,
    U64,
    I64,
    F64,
}

} // verus!
