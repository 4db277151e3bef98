//! Token vocabulary loaded from GGUF metadata.

use vstd::prelude::*;

use crate::error::{GgufValueType, ModelError};
use crate::gguf::metadata::{
    first_not_kind, is_array_lookup_err, is_scalar_lookup_err, spec_lookup, GgufMetadata,
    SpecGgufValue,
};
use crate::gguf::wire;
use vstd::utf8::encode_utf8;

verus! {

/// The metadata key holding the token strings.
pub open spec fn key_tokens() -> Seq<u8> {
    encode_utf8("tokenizer.ggml.tokens"@)
}

/// The metadata key holding the merge scores.
pub open spec fn key_scores() -> Seq<u8> {
    encode_utf8("tokenizer.ggml.scores"@)
}

/// The metadata key holding the beginning-of-sequence token ID.
pub open spec fn key_bos() -> Seq<u8> {
    encode_utf8("tokenizer.ggml.bos_token_id"@)
}

/// The metadata key holding the end-of-sequence token ID.
pub open spec fn key_eos() -> Seq<u8> {
    encode_utf8("tokenizer.ggml.eos_token_id"@)
}

/// The token strings of a vocabulary, each as its bytes.
pub open spec fn tokens_view(tokens: Seq<Vec<u8>>) -> Seq<Seq<u8>> {
    Seq::new(tokens.len(), |i: int| tokens[i]@)
}

/// Index of the token string equal to `tok`; when several are equal, the
/// last one wins, mirroring insertion into a reverse map.
pub open spec fn spec_token_lookup(tokens: Seq<Seq<u8>>, tok: Seq<u8>) -> Option<int>
    decreases tokens.len(),
{
    if tokens.len() == 0 {
        Option::None
    } else if tokens.last() == tok {
        Option::Some(tokens.len() - 1)
    } else {
        spec_token_lookup(tokens.drop_last(), tok)
    }
}

/// Whether the metadata holds a well-shaped token-string array.
pub open spec fn spec_tokens_ok(md: Seq<(Seq<u8>, SpecGgufValue)>) -> bool {
    spec_lookup(md, key_tokens()) matches Option::Some(SpecGgufValue::Array(ts))
        && first_not_kind(ts, GgufValueType::Str) == -1
}

/// Whether the metadata holds a well-shaped score array.
pub open spec fn spec_scores_ok(md: Seq<(Seq<u8>, SpecGgufValue)>) -> bool {
    spec_lookup(md, key_scores()) matches Option::Some(SpecGgufValue::Array(ss))
        && first_not_kind(ss, GgufValueType::F32) == -1
}

/// The error `Vocab::from_gguf` yields, by the first thing wrong in
/// load order: the token array, the score array, a length mismatch or
/// an oversized vocabulary (both `TokenizerError`), the BOS ID, the
/// EOS ID.
pub open spec fn is_vocab_err(e: ModelError, md: Seq<(Seq<u8>, SpecGgufValue)>) -> bool {
    if !spec_tokens_ok(md) {
        is_array_lookup_err(e, md, key_tokens(), GgufValueType::Str)
    } else if !spec_scores_ok(md) {
        is_array_lookup_err(e, md, key_scores(), GgufValueType::F32)
    } else if spec_lookup(md, key_tokens())->Some_0->Array_0.len() != spec_lookup(
        md,
        key_scores(),
    )->Some_0->Array_0.len() {
        e is TokenizerError
    } else if spec_lookup(md, key_tokens())->Some_0->Array_0.len() > u32::MAX {
        e is TokenizerError
    } else if !(spec_lookup(md, key_bos()) matches Option::Some(SpecGgufValue::U32(_))) {
        is_scalar_lookup_err(e, md, key_bos(), GgufValueType::U32)
    } else {
        is_scalar_lookup_err(e, md, key_eos(), GgufValueType::U32)
    }
}

/// Whether the metadata holds everything a vocabulary needs: a string
/// array of tokens, an IEEE-32 array of scores of the same length that
/// fits a u32 ID space, and u32 BOS and EOS IDs.
pub open spec fn spec_vocab_ok(md: Seq<(Seq<u8>, SpecGgufValue)>) -> bool {
    &&& spec_lookup(md, key_tokens()) matches Option::Some(SpecGgufValue::Array(ts))
        && first_not_kind(ts, GgufValueType::Str) == -1
    &&& spec_lookup(md, key_scores()) matches Option::Some(SpecGgufValue::Array(ss))
        && first_not_kind(ss, GgufValueType::F32) == -1
    &&& spec_lookup(md, key_tokens())->Some_0->Array_0.len() == spec_lookup(
        md,
        key_scores(),
    )->Some_0->Array_0.len()
    &&& spec_lookup(md, key_tokens())->Some_0->Array_0.len() <= u32::MAX
    &&& spec_lookup(md, key_bos()) matches Option::Some(SpecGgufValue::U32(_))
    &&& spec_lookup(md, key_eos()) matches Option::Some(SpecGgufValue::U32(_))
}

/// Token vocabulary loaded from GGUF metadata.
pub struct Vocab {
    /// Token strings, indexed by token ID, each as its UTF-8 bytes.
    pub tokens: Vec<Vec<u8>>,
    /// Merge priority scores, indexed by token ID, as IEEE-32 bit
    /// patterns.
    pub scores: Vec<u32>,
    /// Beginning-of-sequence token ID.
    pub bos_id: u32,
    /// End-of-sequence token ID.
    pub eos_id: u32,
}

impl Vocab {
    /// One score per token, and every index representable as a u32 ID.
    pub open spec fn wf(&self) -> bool {
        &&& self.tokens@.len() == self.scores@.len()
        &&& self.tokens@.len() <= u32::MAX
    }

    /// Builds a vocabulary from GGUF metadata: the token strings, the
    /// scores, and the BOS and EOS token IDs.
    pub fn from_gguf(metadata: &GgufMetadata) -> (r: Result<Vocab, ModelError>)
        ensures
            (r is Ok) == spec_vocab_ok(metadata@),
            r is Err ==> is_vocab_err(r->Err_0, metadata@),
            r is Ok ==> ({
                let v = r->Ok_0;
                let ts = spec_lookup(metadata@, key_tokens())->Some_0->Array_0;
                let ss = spec_lookup(metadata@, key_scores())->Some_0->Array_0;
                &&& v.wf()
                &&& tokens_view(v.tokens@) == Seq::new(ts.len(), |i: int| ts[i]->Str_0)
                &&& v.scores@ == Seq::new(ss.len(), |i: int| ss[i]->F32_0)
                &&& v.bos_id == spec_lookup(metadata@, key_bos())->Some_0->U32_0
                &&& v.eos_id == spec_lookup(metadata@, key_eos())->Some_0->U32_0
            }),
    {
        let tkey = wire::str_to_bytes("tokenizer.ggml.tokens");
        let tokens = match metadata.get_string_array(tkey.as_slice()) {
            Ok(v) => v,
            Err(e) => {
                return Err(e);
            },
        };
        let skey = wire::str_to_bytes("tokenizer.ggml.scores");
        let scores = match metadata.get_f32_array(skey.as_slice()) {
            Ok(v) => v,
            Err(e) => {
                return Err(e);
            },
        };
        if tokens.len() != scores.len() {
            return Err(
                ModelError::TokenizerError(
                    wire::str_to_bytes("tokens length does not match scores length"),
                ),
            );
        }
        if tokens.len() > u32::MAX as usize {
            return Err(
                ModelError::TokenizerError(wire::str_to_bytes("vocabulary exceeds the u32 ID space")),
            );
        }
        let bkey = wire::str_to_bytes("tokenizer.ggml.bos_token_id");
        let bos_id = match metadata.get_u32(bkey.as_slice()) {
            Ok(v) => v,
            Err(e) => {
                return Err(e);
            },
        };
        let ekey = wire::str_to_bytes("tokenizer.ggml.eos_token_id");
        let eos_id = match metadata.get_u32(ekey.as_slice()) {
            Ok(v) => v,
            Err(e) => {
                return Err(e);
            },
        };
        proof {
            let ts = spec_lookup(metadata@, key_tokens())->Some_0->Array_0;
            assert(tokens_view(tokens@) =~= Seq::new(ts.len(), |i: int| ts[i]->Str_0));
        }
        Ok(Vocab { tokens, scores, bos_id, eos_id })
    }

    /// Number of tokens in the vocabulary.
    pub fn len(&self) -> (r: usize)
        ensures
            r == self.tokens@.len(),
    {
        self.tokens.len()
    }

    /// True when the vocabulary has no tokens.
    pub fn is_empty(&self) -> (r: bool)
        ensures
            r == (self.tokens@.len() == 0),
    {
        self.tokens.is_empty()
    }

    /// The ID of the token string equal to `tok`, if present; with
    /// duplicates, the last-inserted ID.
    pub fn token_to_id(&self, tok: &[u8]) -> (r: Option<u32>)
        requires
            self.wf(),
        ensures
            match spec_token_lookup(tokens_view(self.tokens@), tok@) {
                Option::None => r is None,
                Option::Some(i) => r == Option::Some(i as u32),
            },
    {
        let ghost tv = tokens_view(self.tokens@);
        let n = self.tokens.len();
        let mut j: usize = n;
        proof {
            assert(tv.subrange(0, n as int) =~= tv);
        }
        while j > 0
            invariant
                0 <= j <= n,
                n == self.tokens@.len(),
                n <= u32::MAX,
                tv == tokens_view(self.tokens@),
                spec_token_lookup(tv, tok@) == spec_token_lookup(tv.subrange(0, j as int), tok@),
            decreases j,
        {
            j -= 1;
            if crate::bytes_eq(self.tokens[j].as_slice(), tok) {
                proof {
                    assert(tv.subrange(0, j + 1).last() == tv[j as int]);
                }
                return Some(j as u32);
            }
            proof {
                assert(tv.subrange(0, j + 1).last() == tv[j as int]);
                assert(tv.subrange(0, j + 1).drop_last() =~= tv.subrange(0, j as int));
            }
        }
        proof {
            assert(tv.subrange(0, 0) =~= Seq::<Seq<u8>>::empty());
        }
        None
    }
}

} // verus!
