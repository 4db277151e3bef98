//! LLaMA model hyperparameters, derived from GGUF metadata.

use vstd::prelude::*;

use crate::error::ModelError;
use crate::gguf::metadata::{spec_lookup, GgufMetadata, SpecGgufValue};
use crate::gguf::metadata::{is_array_lookup_err, is_scalar_lookup_err};
use crate::gguf::wire;
use crate::tokenizer::vocab::{key_tokens, spec_tokens_ok};
use crate::error::GgufValueType;
use crate::gguf::metadata::first_not_kind;
use vstd::utf8::encode_utf8;

verus! {

/// Bit pattern of the default RoPE frequency base, the 32-bit IEEE value
/// 10000.0, used when the file does not name one.
pub const DEFAULT_ROPE_THETA_BITS: u32 = 0x461C4000;

/// The metadata key holding the embedding width.
pub open spec fn key_n_embd() -> Seq<u8> {
    encode_utf8("llama.embedding_length"@)
}

/// The metadata key holding the query head count.
pub open spec fn key_n_heads() -> Seq<u8> {
    encode_utf8("llama.attention.head_count"@)
}

/// The metadata key holding the key/value head count.
pub open spec fn key_n_kv_heads() -> Seq<u8> {
    encode_utf8("llama.attention.head_count_kv"@)
}

/// The metadata key holding the layer count.
pub open spec fn key_n_layers() -> Seq<u8> {
    encode_utf8("llama.block_count"@)
}

/// The metadata key holding the feed-forward width.
pub open spec fn key_n_ff() -> Seq<u8> {
    encode_utf8("llama.feed_forward_length"@)
}

/// The metadata key holding the RMS-norm epsilon.
pub open spec fn key_norm_eps() -> Seq<u8> {
    encode_utf8("llama.attention.layer_norm_rms_epsilon"@)
}

/// The metadata key holding the context window size.
pub open spec fn key_max_seq_len() -> Seq<u8> {
    encode_utf8("llama.context_length"@)
}

/// The metadata key holding the RoPE frequency base.
pub open spec fn key_rope_theta() -> Seq<u8> {
    encode_utf8("llama.rope.freq_base"@)
}

/// The `u32` stored under `key`, when one is.
pub open spec fn spec_u32_at(md: Seq<(Seq<u8>, SpecGgufValue)>, key: Seq<u8>) -> Option<u32> {
    match spec_lookup(md, key) {
        Option::Some(SpecGgufValue::U32(x)) => Option::Some(x),
        _ => Option::None,
    }
}

/// Whether the metadata holds everything a LLaMA configuration needs,
/// with head counts that divide evenly.
pub open spec fn spec_config_ok(md: Seq<(Seq<u8>, SpecGgufValue)>) -> bool {
    &&& spec_u32_at(md, key_n_embd()) is Some
    &&& spec_u32_at(md, key_n_heads()) is Some
    &&& spec_u32_at(md, key_n_kv_heads()) is Some
    &&& spec_u32_at(md, key_n_layers()) is Some
    &&& spec_u32_at(md, key_n_ff()) is Some
    &&& spec_lookup(md, key_norm_eps()) matches Option::Some(SpecGgufValue::F32(_))
    &&& spec_u32_at(md, key_max_seq_len()) is Some
    &&& spec_lookup(md, key_tokens()) matches Option::Some(SpecGgufValue::Array(ts))
        && first_not_kind(ts, GgufValueType::Str) == -1
    &&& ({
        let h = spec_u32_at(md, key_n_heads())->Some_0;
        let kv = spec_u32_at(md, key_n_kv_heads())->Some_0;
        let e = spec_u32_at(md, key_n_embd())->Some_0;
        &&& h > 0
        &&& kv > 0
        &&& e as int % h as int == 0
        &&& h as int % kv as int == 0
    })
}

/// The error `LlamaConfig::from_gguf` yields, by the first thing wrong
/// in load order: each required u32 key, the epsilon, the context size,
/// the token array, and finally zero or non-dividing head counts
/// (`UnsupportedArchitecture`).  The RoPE base never fails; it defaults.
pub open spec fn is_config_err(e: ModelError, md: Seq<(Seq<u8>, SpecGgufValue)>) -> bool {
    if spec_u32_at(md, key_n_embd()) is None {
        is_scalar_lookup_err(e, md, key_n_embd(), GgufValueType::U32)
    } else if spec_u32_at(md, key_n_heads()) is None {
        is_scalar_lookup_err(e, md, key_n_heads(), GgufValueType::U32)
    } else if spec_u32_at(md, key_n_kv_heads()) is None {
        is_scalar_lookup_err(e, md, key_n_kv_heads(), GgufValueType::U32)
    } else if spec_u32_at(md, key_n_layers()) is None {
        is_scalar_lookup_err(e, md, key_n_layers(), GgufValueType::U32)
    } else if spec_u32_at(md, key_n_ff()) is None {
        is_scalar_lookup_err(e, md, key_n_ff(), GgufValueType::U32)
    } else if !(spec_lookup(md, key_norm_eps()) matches Option::Some(SpecGgufValue::F32(_))) {
        is_scalar_lookup_err(e, md, key_norm_eps(), GgufValueType::F32)
    } else if spec_u32_at(md, key_max_seq_len()) is None {
        is_scalar_lookup_err(e, md, key_max_seq_len(), GgufValueType::U32)
    } else if !spec_tokens_ok(md) {
        is_array_lookup_err(e, md, key_tokens(), GgufValueType::Str)
    } else {
        e is UnsupportedArchitecture
    }
}

/// The RoPE frequency base the metadata yields: the stored IEEE-32 bits,
/// or the default when the key is absent or of another kind.
pub open spec fn spec_rope_theta(md: Seq<(Seq<u8>, SpecGgufValue)>) -> u32 {
    match spec_lookup(md, key_rope_theta()) {
        Option::Some(SpecGgufValue::F32(x)) => x,
        _ => DEFAULT_ROPE_THETA_BITS,
    }
}

/// Configuration for a LLaMA model, parsed from GGUF metadata.  The two
/// IEEE quantities are carried as bit patterns.
pub struct LlamaConfig {
    /// Vocabulary size (number of token embeddings).
    pub n_vocab: usize,
    /// Embedding dimension / hidden size.
    pub n_embd: usize,
    /// Number of attention heads for queries.
    pub n_heads: usize,
    /// Number of attention heads for keys/values (grouped-query sharing).
    pub n_kv_heads: usize,
    /// Number of transformer layers.
    pub n_layers: usize,
    /// Feed-forward intermediate dimension.
    pub n_ff: usize,
    /// RMS normalization epsilon, as IEEE-32 bits.
    pub norm_eps_bits: u32,
    /// Maximum sequence length / context window size.
    pub max_seq_len: usize,
    /// RoPE frequency base, as IEEE-32 bits.
    pub rope_theta_bits: u32,
    /// Dimension of each attention head: `n_embd / n_heads`.
    pub head_dim: usize,
}

impl LlamaConfig {
    /// The divisibility relations every configuration upholds.
    pub open spec fn wf(&self) -> bool {
        &&& self.n_heads > 0
        &&& self.n_kv_heads > 0
        &&& self.n_embd % self.n_heads == 0
        &&& self.n_heads % self.n_kv_heads == 0
        &&& self.head_dim == self.n_embd / self.n_heads
    }

    /// Parses a LLaMA configuration from GGUF metadata: the six integer
    /// hyperparameters, the RMS epsilon, the context size, the RoPE base
    /// (defaulting to 10000.0), and the vocabulary size from the token
    /// array's length.  Zero or non-dividing head counts are rejected.
    pub fn from_gguf(metadata: &GgufMetadata) -> (r: Result<LlamaConfig, ModelError>)
        ensures
            (r is Ok) == spec_config_ok(metadata@),
            r is Err ==> is_config_err(r->Err_0, metadata@),
            r is Ok ==> ({
                let c = r->Ok_0;
                &&& c.wf()
                &&& c.n_embd == spec_u32_at(metadata@, key_n_embd())->Some_0
                &&& c.n_heads == spec_u32_at(metadata@, key_n_heads())->Some_0
                &&& c.n_kv_heads == spec_u32_at(metadata@, key_n_kv_heads())->Some_0
                &&& c.n_layers == spec_u32_at(metadata@, key_n_layers())->Some_0
                &&& c.n_ff == spec_u32_at(metadata@, key_n_ff())->Some_0
                &&& c.norm_eps_bits == spec_lookup(metadata@, key_norm_eps())->Some_0->F32_0
                &&& c.max_seq_len == spec_u32_at(metadata@, key_max_seq_len())->Some_0
                &&& c.rope_theta_bits == spec_rope_theta(metadata@)
                &&& c.n_vocab == spec_lookup(metadata@, key_tokens())->Some_0->Array_0.len()
            }),
    {
        let k1 = wire::str_to_bytes("llama.embedding_length");
        let n_embd = match metadata.get_u32(k1.as_slice()) {
            Ok(v) => v,
            Err(e) => {
                return Err(e);
            },
        };
        let k2 = wire::str_to_bytes("llama.attention.head_count");
        let n_heads = match metadata.get_u32(k2.as_slice()) {
            Ok(v) => v,
            Err(e) => {
                return Err(e);
            },
        };
        let k3 = wire::str_to_bytes("llama.attention.head_count_kv");
        let n_kv_heads = match metadata.get_u32(k3.as_slice()) {
            Ok(v) => v,
            Err(e) => {
                return Err(e);
            },
        };
        let k4 = wire::str_to_bytes("llama.block_count");
        let n_layers = match metadata.get_u32(k4.as_slice()) {
            Ok(v) => v,
            Err(e) => {
                return Err(e);
            },
        };
        let k5 = wire::str_to_bytes("llama.feed_forward_length");
        let n_ff = match metadata.get_u32(k5.as_slice()) {
            Ok(v) => v,
            Err(e) => {
                return Err(e);
            },
        };
        let k6 = wire::str_to_bytes("llama.attention.layer_norm_rms_epsilon");
        let norm_eps_bits = match metadata.get_f32(k6.as_slice()) {
            Ok(v) => v,
            Err(e) => {
                return Err(e);
            },
        };
        let k7 = wire::str_to_bytes("llama.context_length");
        let max_seq_len = match metadata.get_u32(k7.as_slice()) {
            Ok(v) => v,
            Err(e) => {
                return Err(e);
            },
        };
        let k8 = wire::str_to_bytes("llama.rope.freq_base");
        let rope_theta_bits = match metadata.get_f32(k8.as_slice()) {
            Ok(v) => v,
            Err(e) => DEFAULT_ROPE_THETA_BITS,
        };
        let k9 = wire::str_to_bytes("tokenizer.ggml.tokens");
        let tokens = match metadata.get_string_array(k9.as_slice()) {
            Ok(v) => v,
            Err(e) => {
                return Err(e);
            },
        };
        let n_vocab = tokens.len();

        if n_heads == 0 || n_kv_heads == 0 {
            return Err(wire_err("a head count of zero"));
        }
        if n_embd % n_heads != 0 {
            return Err(wire_err("embedding width not divisible by the head count"));
        }
        if n_heads % n_kv_heads != 0 {
            return Err(wire_err("head count not divisible by the key/value head count"));
        }
        let head_dim = (n_embd / n_heads) as usize;
        Ok(
            LlamaConfig {
                n_vocab,
                n_embd: n_embd as usize,
                n_heads: n_heads as usize,
                n_kv_heads: n_kv_heads as usize,
                n_layers: n_layers as usize,
                n_ff: n_ff as usize,
                norm_eps_bits,
                max_seq_len: max_seq_len as usize,
                rope_theta_bits,
                head_dim,
            },
        )
    }
}

/// An `UnsupportedArchitecture` error carrying a short description.
fn wire_err(msg: &str) -> (r: ModelError)
    ensures
        r is UnsupportedArchitecture,
{
    ModelError::UnsupportedArchitecture(wire::str_to_bytes(msg))
}

} // verus!
