//! Byte-pair-encoding tokenizer: greedy rank-based pair merging over the
//! vocabulary's token strings, and byte-level decoding.

use vstd::prelude::*;

use crate::error::{GgufValueType, ModelError};
use crate::gguf::metadata::{first_not_kind, spec_lookup, GgufMetadata, SpecGgufValue};
use crate::gguf::wire;
use crate::tokenizer::vocab::{
    is_vocab_err, spec_token_lookup, spec_vocab_ok, tokens_view, key_bos, key_eos, key_tokens,
    Vocab,
};
use vstd::utf8::encode_utf8;

verus! {

/// The metadata key holding the merge rules.
pub open spec fn key_merges() -> Seq<u8> {
    encode_utf8("tokenizer.ggml.merges"@)
}

/// The merge pairs, each side as its bytes.
pub open spec fn merges_view(merges: Seq<(Vec<u8>, Vec<u8>)>) -> Seq<(Seq<u8>, Seq<u8>)> {
    Seq::new(merges.len(), |i: int| (merges[i].0@, merges[i].1@))
}

/// Index of the first ASCII space in `s`, if any.
pub open spec fn first_space(s: Seq<u8>) -> Option<int>
    decreases s.len(),
{
    if s.len() == 0 {
        Option::None
    } else if s[0] == 0x20 {
        Option::Some(0)
    } else {
        match first_space(s.drop_first()) {
            Option::None => Option::None,
            Option::Some(i) => Option::Some(i + 1),
        }
    }
}

/// Splits a merge entry at its space.  An entry must hold exactly one
/// ASCII space; anything else is malformed.
pub open spec fn spec_split_merge(s: Seq<u8>) -> Option<(Seq<u8>, Seq<u8>)> {
    match first_space(s) {
        Option::None => Option::None,
        Option::Some(k) => {
            let right = s.subrange(k + 1, s.len() as int);
            if first_space(right) is Some {
                Option::None
            } else {
                Option::Some((s.subrange(0, k), right))
            }
        },
    }
}

/// Splits every merge entry; `None` as soon as one entry is malformed.
pub open spec fn spec_parse_merges(entries: Seq<Seq<u8>>) -> Option<Seq<(Seq<u8>, Seq<u8>)>>
    decreases entries.len(),
{
    if entries.len() == 0 {
        Option::Some(Seq::empty())
    } else {
        match spec_split_merge(entries[0]) {
            Option::None => Option::None,
            Option::Some(p) => match spec_parse_merges(entries.drop_first()) {
                Option::None => Option::None,
                Option::Some(ps) => Option::Some(seq![p] + ps),
            },
        }
    }
}

/// The string-array entries under the merges key, or empty when the key
/// is absent or of another shape (the format treats merges as optional).
pub open spec fn spec_merge_entries(md: Seq<(Seq<u8>, SpecGgufValue)>) -> Seq<Seq<u8>> {
    if spec_lookup(md, key_merges()) matches Option::Some(SpecGgufValue::Array(vs))
        && first_not_kind(vs, GgufValueType::Str) == -1 {
        let vs = spec_lookup(md, key_merges())->Some_0->Array_0;
        Seq::new(vs.len(), |i: int| vs[i]->Str_0)
    } else {
        Seq::empty()
    }
}

/// The rank of a merge pair: its index in the merge list, lower meaning
/// higher priority.  With duplicates the last entry wins, mirroring
/// insertion into a rank map.
pub open spec fn spec_pair_rank(merges: Seq<(Seq<u8>, Seq<u8>)>, l: Seq<u8>, r: Seq<u8>) -> Option<
    int,
>
    decreases merges.len(),
{
    if merges.len() == 0 {
        Option::None
    } else if merges.last().0 == l && merges.last().1 == r {
        Option::Some(merges.len() - 1)
    } else {
        spec_pair_rank(merges.drop_last(), l, r)
    }
}

/// Best merge among the first `upto` adjacent pairs: the lowest rank,
/// ties to the leftmost.  The result is `(pair index, rank)`.
pub open spec fn spec_best_prefix(
    merges: Seq<(Seq<u8>, Seq<u8>)>,
    toks: Seq<Seq<u8>>,
    upto: int,
) -> Option<(int, int)>
    decreases upto,
{
    if upto <= 0 {
        Option::None
    } else {
        let prev = spec_best_prefix(merges, toks, upto - 1);
        match spec_pair_rank(merges, toks[upto - 1], toks[upto]) {
            Option::None => prev,
            Option::Some(rk) => match prev {
                Option::None => Option::Some((upto - 1, rk)),
                Option::Some((pi, pr)) => if rk < pr {
                    Option::Some((upto - 1, rk))
                } else {
                    prev
                },
            },
        }
    }
}

/// Best merge among all adjacent pairs of `toks`.
pub open spec fn spec_best_merge(merges: Seq<(Seq<u8>, Seq<u8>)>, toks: Seq<Seq<u8>>) -> Option<
    (int, int),
> {
    if toks.len() < 2 {
        Option::None
    } else {
        spec_best_prefix(merges, toks, toks.len() - 1)
    }
}

/// One merge step: concatenate the pair at `i` and drop its right half.
pub open spec fn spec_merge_at(toks: Seq<Seq<u8>>, i: int) -> Seq<Seq<u8>> {
    toks.update(i, toks[i] + toks[i + 1]).remove(i + 1)
}

/// The fixed point of greedy merging: apply the best merge until none is
/// left.
pub open spec fn spec_merge_loop(merges: Seq<(Seq<u8>, Seq<u8>)>, toks: Seq<Seq<u8>>) -> Seq<
    Seq<u8>,
>
    decreases toks.len(),
{
    match spec_best_merge(merges, toks) {
        Option::None => toks,
        Option::Some((i, rk)) => if 0 <= i < toks.len() - 1 {
            spec_merge_loop(merges, spec_merge_at(toks, i))
        } else {
            toks
        },
    }
}

/// The uppercase hex digit of a value below 16.
pub open spec fn hex_upper(n: u8) -> u8 {
    if n < 10 {
        (0x30 + n) as u8
    } else {
        (0x41 + (n - 10)) as u8
    }
}

/// The single-character form of a byte: the UTF-8 encoding of the
/// code point with its value.
pub open spec fn spec_char_form(b: u8) -> Seq<u8> {
    if b < 0x80 {
        seq![b]
    } else {
        seq![(0xC0 + b / 64) as u8, (0x80 + b % 64) as u8]
    }
}

/// The byte-level token form of a byte: "<0xHH>" with uppercase hex.
pub open spec fn spec_byte_hex(b: u8) -> Seq<u8> {
    seq![0x3Cu8, 0x30u8, 0x78u8, hex_upper(b / 16), hex_upper(b % 16), 0x3Eu8]
}

/// The starting token string for one input byte: the character form when
/// the vocabulary has it, else the byte-level form when the vocabulary
/// has that, else the character form again (to resolve to the unknown
/// ID later).
pub open spec fn spec_init_token(vocab: Seq<Seq<u8>>, b: u8) -> Seq<u8> {
    if spec_token_lookup(vocab, spec_char_form(b)) is Some {
        spec_char_form(b)
    } else if spec_token_lookup(vocab, spec_byte_hex(b)) is Some {
        spec_byte_hex(b)
    } else {
        spec_char_form(b)
    }
}

/// The starting token list for an input text, one token per byte.
pub open spec fn spec_init_tokens(vocab: Seq<Seq<u8>>, text: Seq<u8>) -> Seq<Seq<u8>> {
    Seq::new(text.len(), |i: int| spec_init_token(vocab, text[i]))
}

/// The ID a token string maps to: its vocabulary index, or 0 when
/// unknown.
pub open spec fn spec_token_id(vocab: Seq<Seq<u8>>, tok: Seq<u8>) -> u32 {
    match spec_token_lookup(vocab, tok) {
        Option::None => 0,
        Option::Some(i) => i as u32,
    }
}

/// What encoding a text under a vocabulary and merge list yields: start
/// from per-byte tokens, merge greedily by rank, and map each remaining
/// token string to its ID.
pub open spec fn spec_encode(
    vocab: Seq<Seq<u8>>,
    merges: Seq<(Seq<u8>, Seq<u8>)>,
    text: Seq<u8>,
) -> Seq<u32> {
    let fin = spec_merge_loop(merges, spec_init_tokens(vocab, text));
    Seq::new(fin.len(), |i: int| spec_token_id(vocab, fin[i]))
}

/// Whether a byte is an ASCII hex digit, either case.
pub open spec fn is_hex_digit(b: u8) -> bool {
    (0x30 <= b <= 0x39) || (0x41 <= b <= 0x46) || (0x61 <= b <= 0x66)
}

/// The value of an ASCII hex digit.
pub open spec fn hex_val(b: u8) -> u8 {
    if 0x30 <= b <= 0x39 {
        (b - 0x30) as u8
    } else if 0x41 <= b <= 0x46 {
        (b - 0x41 + 10) as u8
    } else if 0x61 <= b <= 0x66 {
        (b - 0x61 + 10) as u8
    } else {
        0
    }
}

/// Whether a token string has the byte-level form "<0xHH>", exactly six
/// characters.
pub open spec fn is_byte_token(t: Seq<u8>) -> bool {
    &&& t.len() == 6
    &&& t[0] == 0x3C
    &&& t[1] == 0x30
    &&& t[2] == 0x78
    &&& is_hex_digit(t[3])
    &&& is_hex_digit(t[4])
    &&& t[5] == 0x3E
}

/// The bytes one token ID contributes to a decode: nothing for an
/// out-of-range ID, the encoded byte for a byte-level token, the token's
/// bytes otherwise.
pub open spec fn spec_decode_piece(vocab: Seq<Seq<u8>>, id: u32) -> Seq<u8> {
    if id >= vocab.len() {
        Seq::empty()
    } else {
        let t = vocab[id as int];
        if is_byte_token(t) {
            seq![(hex_val(t[3]) * 16 + hex_val(t[4])) as u8]
        } else {
            t
        }
    }
}

/// The bytes a sequence of token IDs decodes to.
pub open spec fn spec_decode(vocab: Seq<Seq<u8>>, ids: Seq<u32>) -> Seq<u8>
    decreases ids.len(),
{
    if ids.len() == 0 {
        Seq::empty()
    } else {
        spec_decode(vocab, ids.drop_last()) + spec_decode_piece(vocab, ids.last())
    }
}

/// Byte-pair-encoding tokenizer loaded from GGUF metadata.
pub struct BpeTokenizer {
    /// The token vocabulary (strings, scores, special token IDs).
    pub vocab: Vocab,
    /// Ordered merge rules; the index of a pair is its rank, lower rank
    /// meaning higher priority.
    pub merges: Vec<(Vec<u8>, Vec<u8>)>,
}

impl BpeTokenizer {
    /// The vocabulary is well formed.
    pub open spec fn wf(&self) -> bool {
        self.vocab.wf()
    }

    /// Loads the tokenizer from GGUF metadata: the vocabulary, and the
    /// merge rules from the merges key (optional; each entry must hold
    /// exactly one ASCII space separating the two sides).
    pub fn from_gguf(metadata: &GgufMetadata) -> (r: Result<BpeTokenizer, ModelError>)
        ensures
            (r is Ok) == (spec_vocab_ok(metadata@) && spec_parse_merges(
                spec_merge_entries(metadata@),
            ) is Some),
            r is Err ==> (if !spec_vocab_ok(metadata@) {
                is_vocab_err(r->Err_0, metadata@)
            } else {
                r->Err_0 is TokenizerError
            }),
            r is Ok ==> ({
                let t = r->Ok_0;
                &&& t.wf()
                &&& merges_view(t.merges@) == spec_parse_merges(
                    spec_merge_entries(metadata@),
                )->Some_0
                &&& tokens_view(t.vocab.tokens@) == ({
                    let ts = spec_lookup(metadata@, key_tokens())->Some_0->Array_0;
                    Seq::new(ts.len(), |i: int| ts[i]->Str_0)
                })
                &&& t.vocab.bos_id == spec_lookup(metadata@, key_bos())->Some_0->U32_0
                &&& t.vocab.eos_id == spec_lookup(metadata@, key_eos())->Some_0->U32_0
            }),
    {
        let vocab = match Vocab::from_gguf(metadata) {
            Ok(v) => v,
            Err(e) => {
                return Err(e);
            },
        };
        let mkey = wire::str_to_bytes("tokenizer.ggml.merges");
        let ghost entries = spec_merge_entries(metadata@);
        let merge_strings: Vec<Vec<u8>> = match metadata.get_string_array(mkey.as_slice()) {
            Ok(v) => v,
            Err(e) => Vec::new(),
        };
        proof {
            assert(Seq::new(merge_strings@.len(), |i: int| merge_strings@[i]@) =~= entries);
        }
        let mut merges: Vec<(Vec<u8>, Vec<u8>)> = Vec::new();
        let mut i: usize = 0;
        proof {
            assert(entries.subrange(0, entries.len() as int) =~= entries);
        }
        while i < merge_strings.len()
            invariant
                entries == spec_merge_entries(metadata@),
                spec_vocab_ok(metadata@),
                0 <= i <= merge_strings@.len(),
                entries.len() == merge_strings@.len(),
                forall|k: int| 0 <= k < entries.len() ==> entries[k] == merge_strings@[k]@,
                merges@.len() == i,
                forall|k: int|
                    0 <= k < i ==> spec_split_merge(entries[k]) == Option::Some(
                        (merges@[k].0@, merges@[k].1@),
                    ),
            decreases merge_strings@.len() - i,
        {
            let entry = &merge_strings[i];
            match split_merge_entry(entry.as_slice()) {
                Some(pair) => {
                    merges.push(pair);
                },
                None => {
                    proof {
                        lemma_parse_merges_bad(entries, i as int);
                    }
                    return Err(ModelError::TokenizerError(wire::str_to_bytes("invalid merge entry")));
                },
            }
            i += 1;
        }
        proof {
            lemma_parse_merges_good(entries, merges_view(merges@));
        }
        Ok(BpeTokenizer { vocab, merges })
    }

    /// The rank of an adjacent pair, if the merge list holds it.
    fn pair_rank(&self, l: &[u8], r: &[u8]) -> (res: Option<usize>)
        ensures
            match spec_pair_rank(merges_view(self.merges@), l@, r@) {
                Option::None => res is None,
                Option::Some(i) => 0 <= i < self.merges@.len() && res == Option::Some(i as usize),
            },
    {
        let ghost mv = merges_view(self.merges@);
        let n = self.merges.len();
        let mut j: usize = n;
        proof {
            assert(mv.subrange(0, n as int) =~= mv);
        }
        while j > 0
            invariant
                0 <= j <= n,
                n == self.merges@.len(),
                mv == merges_view(self.merges@),
                spec_pair_rank(mv, l@, r@) == spec_pair_rank(mv.subrange(0, j as int), l@, r@),
            decreases j,
        {
            j -= 1;
            let pair = &self.merges[j];
            proof {
                assert(mv.subrange(0, j + 1).last() == mv[j as int]);
                assert(mv.subrange(0, j + 1).drop_last() =~= mv.subrange(0, j as int));
            }
            if crate::bytes_eq(pair.0.as_slice(), l) && crate::bytes_eq(pair.1.as_slice(), r) {
                return Some(j);
            }
        }
        proof {
            assert(mv.subrange(0, 0) =~= Seq::<(Seq<u8>, Seq<u8>)>::empty());
        }
        None
    }

    /// Encodes a text, given as UTF-8 bytes, into token IDs: start from
    /// per-byte tokens, repeatedly apply the lowest-ranked adjacent merge
    /// (ties to the leftmost), and map each remaining token string to its
    /// ID, 0 for unknown.
    pub fn encode(&self, text: &[u8]) -> (r: Vec<u32>)
        requires
            self.wf(),
        ensures
            r@ == spec_encode(tokens_view(self.vocab.tokens@), merges_view(self.merges@), text@),
    {
        let ghost vv = tokens_view(self.vocab.tokens@);
        let ghost mv = merges_view(self.merges@);
        if text.len() == 0 {
            proof {
                assert(spec_init_tokens(vv, text@) =~= Seq::<Seq<u8>>::empty());
                assert(spec_merge_loop(mv, spec_init_tokens(vv, text@)) =~= Seq::<Seq<u8>>::empty());
                assert(spec_encode(vv, mv, text@) =~= Seq::<u32>::empty());
            }
            return Vec::new();
        }

        let mut tokens: Vec<Vec<u8>> = Vec::new();
        let mut i: usize = 0;
        while i < text.len()
            invariant
                self.wf(),
                vv == tokens_view(self.vocab.tokens@),
                0 <= i <= text@.len(),
                tokens@.len() == i,
                forall|k: int| 0 <= k < i ==> tokens@[k]@ == spec_init_token(vv, text@[k]),
            decreases text@.len() - i,
        {
            let b = *vstd::slice::slice_index_get(text, i);
            let cf = char_form(b);
            if self.vocab.token_to_id(cf.as_slice()).is_some() {
                tokens.push(cf);
            } else {
                let bh = byte_hex(b);
                if self.vocab.token_to_id(bh.as_slice()).is_some() {
                    tokens.push(bh);
                } else {
                    tokens.push(cf);
                }
            }
            i += 1;
        }
        let ghost init = spec_init_tokens(vv, text@);
        proof {
            assert(tokens_view(tokens@) =~= init);
        }

        // Reading the length gives the prover the machine bound on the
        // merge list, which the rank casts below need.
        let _mlen: usize = self.merges.len();
        let mut done = false;
        while !done
            invariant
                self.wf(),
                vv == tokens_view(self.vocab.tokens@),
                mv == merges_view(self.merges@),
                self.merges@.len() <= usize::MAX,
                spec_merge_loop(mv, tokens_view(tokens@)) == spec_merge_loop(mv, init),
                done ==> spec_merge_loop(mv, tokens_view(tokens@)) == tokens_view(tokens@),
            decreases tokens@.len() + (if done {
                0int
            } else {
                1int
            }),
        {
            let ghost tv = tokens_view(tokens@);
            if tokens.len() < 2 {
                done = true;
            } else {
                let mut best: Option<(usize, usize)> = None;
                let mut j: usize = 0;
                let n = tokens.len();
                while j < n - 1
                    invariant
                        0 <= j <= n - 1,
                        2 <= n == tokens@.len(),
                        mv == merges_view(self.merges@),
                        self.merges@.len() <= usize::MAX,
                        tv == tokens_view(tokens@),
                        match spec_best_prefix(mv, tv, j as int) {
                            Option::None => best is None,
                            Option::Some((si, sr)) => best matches Option::Some(p) && p.0 == si
                                && p.1 == sr && 0 <= si < j,
                        },
                    decreases n - 1 - j,
                {
                    let rk_opt = self.pair_rank(tokens[j].as_slice(), tokens[j + 1].as_slice());
                    match rk_opt {
                        Some(rk) => {
                            let better = match best {
                                None => true,
                                Some(p) => rk < p.1,
                            };
                            if better {
                                best = Some((j, rk));
                            }
                        },
                        None => {},
                    }
                    proof {
                        assert(spec_best_prefix(mv, tv, j as int + 1) == ({
                            let prev = spec_best_prefix(mv, tv, j as int);
                            match spec_pair_rank(mv, tv[j as int], tv[j as int + 1]) {
                                Option::None => prev,
                                Option::Some(rk) => match prev {
                                    Option::None => Option::Some((j as int, rk)),
                                    Option::Some((pi, pr)) => if rk < pr {
                                        Option::Some((j as int, rk))
                                    } else {
                                        prev
                                    },
                                },
                            }
                        }));
                    }
                    j += 1;
                }
                match best {
                    None => {
                        done = true;
                    },
                    Some(p) => {
                        let bi = p.0;
                        let merged = concat_bytes(tokens[bi].as_slice(), tokens[bi + 1].as_slice());
                        tokens.set(bi, merged);
                        let _removed = tokens.remove(bi + 1);
                        proof {
                            assert(spec_best_merge(mv, tv) == Option::Some(
                                (bi as int, p.1 as int),
                            ));
                            assert(tokens_view(tokens@) =~= spec_merge_at(tv, bi as int));
                        }
                    },
                }
            }
        }

        let ghost fin = spec_merge_loop(mv, init);
        proof {
            assert(tokens_view(tokens@) == fin);
        }
        let mut ids: Vec<u32> = Vec::new();
        let mut k: usize = 0;
        while k < tokens.len()
            invariant
                self.wf(),
                vv == tokens_view(self.vocab.tokens@),
                fin == tokens_view(tokens@),
                0 <= k <= tokens@.len(),
                ids@.len() == k,
                forall|q: int| 0 <= q < k ==> ids@[q] == spec_token_id(vv, fin[q]),
            decreases tokens@.len() - k,
        {
            let id = match self.vocab.token_to_id(tokens[k].as_slice()) {
                Some(x) => x,
                None => 0,
            };
            ids.push(id);
            k += 1;
        }
        proof {
            assert(ids@ =~= spec_encode(vv, mv, text@));
        }
        ids
    }

    /// Decodes token IDs back into bytes: each ID's token string, with
    /// byte-level "<0xHH>" tokens turned back into their byte;
    /// out-of-range IDs contribute nothing.
    pub fn decode(&self, tokens: &[u32]) -> (r: Vec<u8>)
        requires
            self.wf(),
        ensures
            r@ == spec_decode(tokens_view(self.vocab.tokens@), tokens@),
    {
        let ghost vv = tokens_view(self.vocab.tokens@);
        let mut out: Vec<u8> = Vec::new();
        let mut i: usize = 0;
        proof {
            assert(tokens@.subrange(0, 0) =~= Seq::<u32>::empty());
        }
        while i < tokens.len()
            invariant
                self.wf(),
                vv == tokens_view(self.vocab.tokens@),
                0 <= i <= tokens@.len(),
                out@ == spec_decode(vv, tokens@.subrange(0, i as int)),
            decreases tokens@.len() - i,
        {
            let id = *vstd::slice::slice_index_get(tokens, i);
            proof {
                assert(tokens@.subrange(0, i + 1).drop_last() =~= tokens@.subrange(0, i as int));
                assert(tokens@.subrange(0, i + 1).last() == tokens@[i as int]);
            }
            if (id as usize) < self.vocab.tokens.len() {
                let t = &self.vocab.tokens[id as usize];
                if is_byte_token_exec(t.as_slice()) {
                    let b3 = *vstd::slice::slice_index_get(t.as_slice(), 3);
                    let b4 = *vstd::slice::slice_index_get(t.as_slice(), 4);
                    let byte = hex_val_exec(b3) * 16 + hex_val_exec(b4);
                    out.push(byte);
                    proof {
                        assert(out@ =~= spec_decode(vv, tokens@.subrange(0, i + 1)));
                    }
                } else {
                    out.extend_from_slice(t.as_slice());
                    proof {
                        assert(out@ =~= spec_decode(vv, tokens@.subrange(0, i + 1)));
                    }
                }
            } else {
                proof {
                    assert(out@ + spec_decode_piece(vv, tokens@[i as int]) =~= out@);
                }
            }
            i += 1;
        }
        proof {
            assert(tokens@.subrange(0, tokens@.len() as int) =~= tokens@);
        }
        out
    }

    /// The beginning-of-sequence token ID.
    pub fn bos_id(&self) -> (r: u32)
        ensures
            r == self.vocab.bos_id,
    {
        self.vocab.bos_id
    }

    /// The end-of-sequence token ID.
    pub fn eos_id(&self) -> (r: u32)
        ensures
            r == self.vocab.eos_id,
    {
        self.vocab.eos_id
    }
}

/// The concatenation of two byte strings.
pub fn concat_bytes(a: &[u8], b: &[u8]) -> (r: Vec<u8>)
    ensures
        r@ == a@ + b@,
{
    let mut v = vstd::slice::slice_to_vec(a);
    v.extend_from_slice(b);
    v
}

/// The single-character form of a byte, executable.
fn char_form(b: u8) -> (r: Vec<u8>)
    ensures
        r@ == spec_char_form(b),
{
    let mut v: Vec<u8> = Vec::new();
    if b < 0x80 {
        v.push(b);
        proof {
            assert(v@ =~= spec_char_form(b));
        }
    } else {
        v.push(0xC0 + b / 64);
        v.push(0x80 + b % 64);
        proof {
            assert(v@ =~= spec_char_form(b));
        }
    }
    v
}

/// The uppercase hex digit of a value below 16, executable.
fn hex_upper_exec(n: u8) -> (r: u8)
    requires
        n < 16,
    ensures
        r == hex_upper(n),
{
    if n < 10 {
        0x30 + n
    } else {
        0x41 + (n - 10)
    }
}

/// The byte-level token form of a byte, executable.
fn byte_hex(b: u8) -> (r: Vec<u8>)
    ensures
        r@ == spec_byte_hex(b),
{
    let mut v: Vec<u8> = Vec::new();
    v.push(0x3C);
    v.push(0x30);
    v.push(0x78);
    v.push(hex_upper_exec(b / 16));
    v.push(hex_upper_exec(b % 16));
    v.push(0x3E);
    proof {
        assert(v@ =~= spec_byte_hex(b));
    }
    v
}

/// Whether a token string has the byte-level "<0xHH>" form, executable.
fn is_byte_token_exec(t: &[u8]) -> (r: bool)
    ensures
        r == is_byte_token(t@),
{
    if t.len() != 6 {
        return false;
    }
    let t0 = *vstd::slice::slice_index_get(t, 0);
    let t1 = *vstd::slice::slice_index_get(t, 1);
    let t2 = *vstd::slice::slice_index_get(t, 2);
    let t3 = *vstd::slice::slice_index_get(t, 3);
    let t4 = *vstd::slice::slice_index_get(t, 4);
    let t5 = *vstd::slice::slice_index_get(t, 5);
    t0 == 0x3C && t1 == 0x30 && t2 == 0x78 && is_hex_digit_exec(t3) && is_hex_digit_exec(t4) && t5
        == 0x3E
}

/// Whether a byte is an ASCII hex digit, executable.
fn is_hex_digit_exec(b: u8) -> (r: bool)
    ensures
        r == is_hex_digit(b),
{
    (0x30 <= b && b <= 0x39) || (0x41 <= b && b <= 0x46) || (0x61 <= b && b <= 0x66)
}

/// The value of an ASCII hex digit, executable.
fn hex_val_exec(b: u8) -> (r: u8)
    ensures
        r == hex_val(b),
{
    if 0x30 <= b && b <= 0x39 {
        b - 0x30
    } else if 0x41 <= b && b <= 0x46 {
        b - 0x41 + 10
    } else if 0x61 <= b && b <= 0x66 {
        b - 0x61 + 10
    } else {
        0
    }
}

/// A found best merge names a pair that really has that rank.
proof fn lemma_best_prefix_pair(
    merges: Seq<(Seq<u8>, Seq<u8>)>,
    toks: Seq<Seq<u8>>,
    upto: int,
    i: int,
    rk: int,
)
    requires
        spec_best_prefix(merges, toks, upto) == Option::Some((i, rk)),
    ensures
        0 <= i < upto,
        spec_pair_rank(merges, toks[i], toks[i + 1]) == Option::Some(rk),
    decreases upto,
{
    if upto > 0 {
        let prev = spec_best_prefix(merges, toks, upto - 1);
        match spec_pair_rank(merges, toks[upto - 1], toks[upto]) {
            Option::None => {
                lemma_best_prefix_pair(merges, toks, upto - 1, i, rk);
            },
            Option::Some(cur) => {
                match prev {
                    Option::None => {},
                    Option::Some((pi, pr)) => {
                        if cur < pr {
                        } else {
                            lemma_best_prefix_pair(merges, toks, upto - 1, i, rk);
                        }
                    },
                }
            },
        }
    }
}

/// A successful token lookup names a real index holding that token.
pub proof fn lemma_token_lookup_index(vocab: Seq<Seq<u8>>, tok: Seq<u8>)
    requires
        spec_token_lookup(vocab, tok) is Some,
    ensures
        0 <= spec_token_lookup(vocab, tok)->Some_0 < vocab.len(),
        vocab[spec_token_lookup(vocab, tok)->Some_0] == tok,
    decreases vocab.len(),
{
    if vocab.len() > 0 && vocab.last() != tok {
        lemma_token_lookup_index(vocab.drop_last(), tok);
    }
}

/// One merge step keeps the concatenation of all token strings.
proof fn lemma_flatten_merge_at(toks: Seq<Seq<u8>>, i: int)
    requires
        0 <= i < toks.len() - 1,
    ensures
        spec_merge_at(toks, i).flatten() == toks.flatten(),
    decreases i,
{
    let merged = spec_merge_at(toks, i);
    if i == 0 {
        let dd = toks.drop_first().drop_first();
        assert(merged.drop_first() =~= dd);
        assert(toks.flatten() == toks[0] + toks.drop_first().flatten());
        assert(toks.drop_first().flatten() == toks[1] + dd.flatten());
        assert(merged.flatten() == (toks[0] + toks[1]) + dd.flatten());
        assert((toks[0] + toks[1]) + dd.flatten() =~= toks[0] + (toks[1] + dd.flatten()));
    } else {
        assert(merged.drop_first() =~= spec_merge_at(toks.drop_first(), i - 1));
        lemma_flatten_merge_at(toks.drop_first(), i - 1);
        assert(merged[0] == toks[0]);
        assert(merged.flatten() == merged[0] + merged.drop_first().flatten());
        assert(toks.flatten() == toks[0] + toks.drop_first().flatten());
    }
}

/// Every token string the merge loop can produce is in the vocabulary,
/// and the concatenation of the token strings never changes, provided
/// every ranked merge pair's concatenation is in the vocabulary.
proof fn lemma_merge_loop_good(
    vocab: Seq<Seq<u8>>,
    merges: Seq<(Seq<u8>, Seq<u8>)>,
    toks: Seq<Seq<u8>>,
)
    requires
        forall|j: int| 0 <= j < toks.len() ==> spec_token_lookup(vocab, #[trigger] toks[j]) is Some,
        forall|l: Seq<u8>, r: Seq<u8>|
            spec_pair_rank(merges, l, r) is Some ==> spec_token_lookup(vocab, #[trigger] (l + r)) is Some,
    ensures
        spec_merge_loop(merges, toks).flatten() == toks.flatten(),
        forall|j: int|
            0 <= j < spec_merge_loop(merges, toks).len() ==> spec_token_lookup(
                vocab,
                #[trigger] spec_merge_loop(merges, toks)[j],
            ) is Some,
    decreases toks.len(),
{
    match spec_best_merge(merges, toks) {
        Option::None => {},
        Option::Some((i, rk)) => {
            if 0 <= i < toks.len() - 1 {
                lemma_best_prefix_pair(merges, toks, toks.len() - 1, i, rk);
                lemma_flatten_merge_at(toks, i);
                let merged = spec_merge_at(toks, i);
                assert(merged[i] == toks[i] + toks[i + 1]);
                assert forall|j: int| 0 <= j < merged.len() implies spec_token_lookup(
                    vocab,
                    #[trigger] merged[j],
                ) is Some by {
                    if j < i {
                        assert(merged[j] == toks[j]);
                    } else if j == i {
                    } else {
                        assert(merged[j] == toks[j + 1]);
                    }
                }
                lemma_merge_loop_good(vocab, merges, merged);
            }
        },
    }
}

/// Decoding the IDs of vocabulary tokens concatenates those tokens,
/// provided no vocabulary token has the byte-level "<0xHH>" shape.
proof fn lemma_decode_of_good(vocab: Seq<Seq<u8>>, fin: Seq<Seq<u8>>)
    requires
        vocab.len() <= u32::MAX,
        forall|j: int| 0 <= j < fin.len() ==> spec_token_lookup(vocab, #[trigger] fin[j]) is Some,
        forall|k: int| 0 <= k < vocab.len() ==> !is_byte_token(#[trigger] vocab[k]),
    ensures
        spec_decode(vocab, Seq::new(fin.len(), |j: int| spec_token_id(vocab, fin[j])))
            == fin.flatten_alt(),
    decreases fin.len(),
{
    let ids = Seq::new(fin.len(), |j: int| spec_token_id(vocab, fin[j]));
    if fin.len() == 0 {
        assert(spec_decode(vocab, ids) =~= fin.flatten_alt());
    } else {
        let prev = fin.drop_last();
        lemma_decode_of_good(vocab, prev);
        assert(ids.drop_last() =~= Seq::new(prev.len(), |j: int| spec_token_id(vocab, prev[j])));
        let last_tok = fin.last();
        lemma_token_lookup_index(vocab, last_tok);
        let idx = spec_token_lookup(vocab, last_tok)->Some_0;
        assert(ids.last() == idx as u32);
        assert((idx as u32) < vocab.len());
        assert(spec_decode_piece(vocab, ids.last()) == last_tok);
        assert(spec_decode(vocab, ids) == spec_decode(vocab, ids.drop_last())
            + spec_decode_piece(vocab, ids.last()));
    }
}

/// The per-byte starting tokens of an ASCII text whose characters are in
/// the vocabulary are the single bytes themselves, and concatenate back
/// to the text.
proof fn lemma_init_ascii(vocab: Seq<Seq<u8>>, text: Seq<u8>)
    requires
        forall|i: int| 0 <= i < text.len() ==> #[trigger] text[i] < 0x80,
        forall|i: int|
            0 <= i < text.len() ==> spec_token_lookup(vocab, seq![#[trigger] text[i]]) is Some,
    ensures
        forall|i: int|
            0 <= i < text.len() ==> #[trigger] spec_init_tokens(vocab, text)[i] == seq![text[i]],
        spec_init_tokens(vocab, text).flatten() == text,
    decreases text.len(),
{
    let init = spec_init_tokens(vocab, text);
    assert forall|i: int| 0 <= i < text.len() implies #[trigger] init[i] == seq![text[i]] by {
        assert(spec_char_form(text[i]) == seq![text[i]]);
    }
    if text.len() == 0 {
        assert(init.flatten() =~= text);
    } else {
        let rest = text.drop_first();
        lemma_init_ascii(vocab, rest);
        assert(init.drop_first() =~= spec_init_tokens(vocab, rest));
        assert(init.flatten() == init[0] + init.drop_first().flatten());
        assert(seq![text[0]] + rest =~= text);
    }
}

/// Round trip for ASCII text: decoding an encoding gives the text back,
/// whenever every character is individually in the vocabulary, the
/// concatenation of every ranked merge pair is in the vocabulary, and no
/// vocabulary token has the byte-level "<0xHH>" shape.
pub proof fn lemma_ascii_round_trip(
    vocab: Seq<Seq<u8>>,
    merges: Seq<(Seq<u8>, Seq<u8>)>,
    text: Seq<u8>,
)
    requires
        vocab.len() <= u32::MAX,
        forall|i: int| 0 <= i < text.len() ==> #[trigger] text[i] < 0x80,
        forall|i: int|
            0 <= i < text.len() ==> spec_token_lookup(vocab, seq![#[trigger] text[i]]) is Some,
        forall|l: Seq<u8>, r: Seq<u8>|
            spec_pair_rank(merges, l, r) is Some ==> spec_token_lookup(vocab, #[trigger] (l + r)) is Some,
        forall|k: int| 0 <= k < vocab.len() ==> !is_byte_token(#[trigger] vocab[k]),
    ensures
        spec_decode(vocab, spec_encode(vocab, merges, text)) == text,
{
    let init = spec_init_tokens(vocab, text);
    lemma_init_ascii(vocab, text);
    lemma_merge_loop_good(vocab, merges, init);
    let fin = spec_merge_loop(merges, init);
    lemma_decode_of_good(vocab, fin);
    fin.lemma_flatten_and_flatten_alt_are_equivalent();
    assert(spec_encode(vocab, merges, text) =~= Seq::new(
        fin.len(),
        |j: int| spec_token_id(vocab, fin[j]),
    ));
}

/// When entry `i` is malformed, the whole merge list is.
proof fn lemma_parse_merges_bad(entries: Seq<Seq<u8>>, i: int)
    requires
        0 <= i < entries.len(),
        spec_split_merge(entries[i]) is None,
    ensures
        spec_parse_merges(entries) is None,
    decreases i,
{
    if spec_split_merge(entries[0]) is Some {
        lemma_parse_merges_bad(entries.drop_first(), i - 1);
    }
}

/// When every entry splits to the corresponding pair, the parse yields
/// exactly those pairs.
proof fn lemma_parse_merges_good(entries: Seq<Seq<u8>>, pairs: Seq<(Seq<u8>, Seq<u8>)>)
    requires
        entries.len() == pairs.len(),
        forall|k: int| 0 <= k < entries.len() ==> spec_split_merge(entries[k]) == Option::Some(#[trigger] pairs[k]),
    ensures
        spec_parse_merges(entries) == Option::Some(pairs),
    decreases entries.len(),
{
    if entries.len() > 0 {
        lemma_parse_merges_good(entries.drop_first(), pairs.drop_first());
        assert(seq![pairs[0]] + pairs.drop_first() =~= pairs);
    }
}

/// Splits one merge entry at its single ASCII space.
fn split_merge_entry(s: &[u8]) -> (r: Option<(Vec<u8>, Vec<u8>)>)
    ensures
        match spec_split_merge(s@) {
            Option::None => r is None,
            Option::Some((l, rr)) => r matches Option::Some(p) && p.0@ == l && p.1@ == rr,
        },
{
    let n = s.len();
    let mut spaces: usize = 0;
    let mut first: usize = 0;
    let mut i: usize = 0;
    while i < n
        invariant
            0 <= i <= n,
            n == s@.len(),
            spaces <= i,
            spaces == count_spaces_upto(s@, i as int),
            spaces > 0 ==> 0 <= first < i && s@[first as int] == 0x20 && (forall|k: int|
                0 <= k < first ==> s@[k] != 0x20),
            spaces == 0 ==> forall|k: int| 0 <= k < i ==> s@[k] != 0x20,
        decreases n - i,
    {
        if *vstd::slice::slice_index_get(s, i) == 0x20 {
            if spaces == 0 {
                first = i;
            }
            spaces += 1;
        }
        i += 1;
    }
    if spaces != 1 {
        proof {
            if spaces == 0 {
                lemma_no_space(s@, s@.len() as int);
            } else {
                lemma_second_space(s@, first as int, n as int);
            }
        }
        return None;
    }
    proof {
        lemma_one_space(s@, first as int, n as int);
    }
    let left = vstd::slice::slice_subrange(s, 0, first);
    let right = vstd::slice::slice_subrange(s, first + 1, n);
    Some((vstd::slice::slice_to_vec(left), vstd::slice::slice_to_vec(right)))
}

/// Number of spaces among the first `i` bytes.
pub open spec fn count_spaces_upto(s: Seq<u8>, i: int) -> int
    decreases i,
{
    if i <= 0 {
        0
    } else {
        count_spaces_upto(s, i - 1) + (if s[i - 1] == 0x20 {
            1int
        } else {
            0int
        })
    }
}

/// A prefix with no space makes `first_space` of the whole sequence
/// `None` when the prefix is everything.
proof fn lemma_no_space(s: Seq<u8>, n: int)
    requires
        n == s.len(),
        forall|k: int| 0 <= k < n ==> s[k] != 0x20,
    ensures
        first_space(s) is None,
    decreases n,
{
    if n > 0 {
        lemma_no_space(s.drop_first(), n - 1);
    }
}

/// With no space before `first` and a space at `first`, `first_space`
/// is exactly `first`.
proof fn lemma_first_space_at(s: Seq<u8>, first: int)
    requires
        0 <= first < s.len(),
        s[first] == 0x20,
        forall|k: int| 0 <= k < first ==> s[k] != 0x20,
    ensures
        first_space(s) == Option::Some(first),
    decreases first,
{
    if first > 0 {
        lemma_first_space_at(s.drop_first(), first - 1);
    }
}

/// With exactly one space in all of `s`, the split succeeds at it.
proof fn lemma_one_space(s: Seq<u8>, first: int, n: int)
    requires
        n == s.len(),
        0 <= first < n,
        s[first] == 0x20,
        forall|k: int| 0 <= k < first ==> s[k] != 0x20,
        count_spaces_upto(s, n) == 1,
    ensures
        spec_split_merge(s) == Option::Some((s.subrange(0, first), s.subrange(first + 1, n))),
{
    lemma_first_space_at(s, first);
    lemma_count_vs_exists(s, n);
    let right = s.subrange(first + 1, n);
    assert(forall|k: int| 0 <= k < right.len() ==> right[k] == s[first + 1 + k]);
    assert forall|k: int| 0 <= k < right.len() implies right[k] != 0x20 by {
        if right[k] == 0x20 {
            lemma_count_two(s, first, first + 1 + k, n);
        }
    }
    lemma_no_space(right, right.len() as int);
}

/// With a space at `first` and more than one space in all of `s`, the
/// split fails.
proof fn lemma_second_space(s: Seq<u8>, first: int, n: int)
    requires
        n == s.len(),
        0 <= first < n,
        s[first] == 0x20,
        forall|k: int| 0 <= k < first ==> s[k] != 0x20,
        count_spaces_upto(s, n) >= 2,
    ensures
        spec_split_merge(s) is None,
{
    lemma_first_space_at(s, first);
    let right = s.subrange(first + 1, n);
    assert(count_spaces_upto(right, right.len() as int) >= 1) by {
        lemma_count_prefix_agrees(s, first + 1, n, right);
        assert(count_spaces_upto(s, first + 1) == 1) by {
            lemma_count_no_space_prefix(s, first);
        }
    }
    lemma_count_pos_exists(right, right.len() as int);
    if first_space(right) is None {
        lemma_no_space_means(right, right.len() as int);
    }
}

/// A positive space count yields a space.
proof fn lemma_count_pos_exists(s: Seq<u8>, n: int)
    requires
        0 <= n <= s.len(),
        count_spaces_upto(s, n) >= 1,
    ensures
        exists|k: int| 0 <= k < n && s[k] == 0x20,
    decreases n,
{
    if n > 0 && s[n - 1] != 0x20 {
        lemma_count_pos_exists(s, n - 1);
    }
}

/// `first_space` being `None` means no byte is a space.
proof fn lemma_no_space_means(s: Seq<u8>, n: int)
    requires
        n == s.len(),
        first_space(s) is None,
    ensures
        forall|k: int| 0 <= k < n ==> s[k] != 0x20,
    decreases n,
{
    if n > 0 {
        assert(s[0] != 0x20);
        lemma_no_space_means(s.drop_first(), n - 1);
        assert forall|k: int| 0 <= k < n implies s[k] != 0x20 by {
            if k > 0 {
                assert(s.drop_first()[k - 1] == s[k]);
            }
        }
    }
}

/// A count of 1 over everything means any space is the only one.
proof fn lemma_count_vs_exists(s: Seq<u8>, n: int)
    requires
        n == s.len(),
        count_spaces_upto(s, n) == 1,
    ensures
        forall|a: int, b: int| 0 <= a < b < n && s[a] == 0x20 ==> s[b] != 0x20,
{
    assert forall|a: int, b: int| 0 <= a < b < n && s[a] == 0x20 implies s[b] != 0x20 by {
        if s[b] == 0x20 {
            lemma_count_two(s, a, b, n);
        }
    }
}

/// Two distinct spaces push the count to at least 2.
proof fn lemma_count_two(s: Seq<u8>, a: int, b: int, n: int)
    requires
        0 <= a < b < n <= s.len(),
        s[a] == 0x20,
        s[b] == 0x20,
    ensures
        count_spaces_upto(s, n) >= 2,
    decreases n,
{
    if n - 1 == b {
        lemma_count_ge_one(s, a, n - 1);
    } else {
        lemma_count_two(s, a, b, n - 1);
    }
}

/// A space below `m` makes the count through `m` positive.
proof fn lemma_count_ge_one(s: Seq<u8>, a: int, m: int)
    requires
        0 <= a < m <= s.len(),
        s[a] == 0x20,
    ensures
        count_spaces_upto(s, m) >= 1,
    decreases m,
{
    if m - 1 == a {
        lemma_count_nonneg(s, a);
    } else {
        lemma_count_ge_one(s, a, m - 1);
    }
}

/// The space count is never negative.
proof fn lemma_count_nonneg(s: Seq<u8>, n: int)
    ensures
        count_spaces_upto(s, n) >= 0,
    decreases n,
{
    if n > 0 {
        lemma_count_nonneg(s, n - 1);
    }
}

/// The count over a suffix agrees with the difference of counts.
proof fn lemma_count_prefix_agrees(s: Seq<u8>, start: int, n: int, suffix: Seq<u8>)
    requires
        0 <= start <= n <= s.len(),
        suffix == s.subrange(start, n),
    ensures
        count_spaces_upto(s, n) == count_spaces_upto(s, start) + count_spaces_upto(
            suffix,
            suffix.len() as int,
        ),
    decreases n - start,
{
    if n > start {
        lemma_count_prefix_agrees(s, start, n - 1, s.subrange(start, n - 1));
        assert(s.subrange(start, n - 1) =~= suffix.subrange(0, suffix.len() - 1));
        lemma_count_subrange_drop(suffix, s.subrange(start, n - 1));
    }
}

/// Dropping the last byte drops its contribution.
proof fn lemma_count_subrange_drop(suffix: Seq<u8>, prefix: Seq<u8>)
    requires
        suffix.len() >= 1,
        prefix == suffix.subrange(0, suffix.len() - 1),
    ensures
        count_spaces_upto(suffix, suffix.len() as int) == count_spaces_upto(
            prefix,
            prefix.len() as int,
        ) + (if suffix[suffix.len() - 1] == 0x20 {
            1int
        } else {
            0int
        }),
    decreases suffix.len(),
{
    lemma_count_prefix_eq(suffix, prefix, suffix.len() - 1);
}

/// Counts agree on a shared prefix.
proof fn lemma_count_prefix_eq(s1: Seq<u8>, s2: Seq<u8>, m: int)
    requires
        0 <= m <= s1.len(),
        m <= s2.len(),
        forall|k: int| 0 <= k < m ==> s1[k] == s2[k],
    ensures
        count_spaces_upto(s1, m) == count_spaces_upto(s2, m),
    decreases m,
{
    if m > 0 {
        lemma_count_prefix_eq(s1, s2, m - 1);
    }
}

/// The count split at `first`: everything before the space-free prefix.
proof fn lemma_count_no_space_prefix(s: Seq<u8>, first: int)
    requires
        0 <= first < s.len(),
        s[first] == 0x20,
        forall|k: int| 0 <= k < first ==> s[k] != 0x20,
    ensures
        count_spaces_upto(s, first + 1) == 1,
    decreases first,
{
    lemma_count_zero(s, first);
}

/// No spaces in the first `n` bytes means a count of zero.
proof fn lemma_count_zero(s: Seq<u8>, n: int)
    requires
        0 <= n <= s.len(),
        forall|k: int| 0 <= k < n ==> s[k] != 0x20,
    ensures
        count_spaces_upto(s, n) == 0,
    decreases n,
{
    if n > 0 {
        lemma_count_zero(s, n - 1);
    }
}

} // verus!
