pub mod vocab;
pub mod bpe;
