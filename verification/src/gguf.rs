//! GGUF container reader: header, metadata, tensor-info table, and the
//! byte-level unpacking of quantized tensor data.

pub mod wire;
pub mod header;
pub mod metadata;
pub mod tensor_info;
pub mod image;
pub mod dequant;
