use ir_core::error::ModelError;
use ir_core::gguf::image::GgufFile;
use ir_core::tokenizer::bpe::BpeTokenizer;
use ir_core::tokenizer::vocab::Vocab;

fn push_u32(out: &mut Vec<u8>, x: u32) {
    out.extend_from_slice(&x.to_le_bytes());
}

fn push_u64(out: &mut Vec<u8>, x: u64) {
    out.extend_from_slice(&x.to_le_bytes());
}

fn push_gguf_string(out: &mut Vec<u8>, s: &str) {
    push_u64(out, s.len() as u64);
    out.extend_from_slice(s.as_bytes());
}

fn push_kv_u32(out: &mut Vec<u8>, key: &str, v: u32) {
    push_gguf_string(out, key);
    push_u32(out, 4);
    push_u32(out, v);
}

fn push_kv_str_array(out: &mut Vec<u8>, key: &str, vals: &[&str]) {
    push_gguf_string(out, key);
    push_u32(out, 9);
    push_u32(out, 8);
    push_u64(out, vals.len() as u64);
    for v in vals {
        push_gguf_string(out, v);
    }
}

fn push_kv_f32_array(out: &mut Vec<u8>, key: &str, vals: &[f32]) {
    push_gguf_string(out, key);
    push_u32(out, 9);
    push_u32(out, 6);
    push_u64(out, vals.len() as u64);
    for v in vals {
        out.extend_from_slice(&v.to_le_bytes());
    }
}

/// A GGUF image holding only the tokenizer metadata of the synthetic
/// fixture model, with the given token list and merge entries.
fn tokenizer_fixture(tokens: &[&str], merges: &[&str]) -> Vec<u8> {
    let mut out = Vec::new();
    out.extend_from_slice(b"GGUF");
    push_u32(&mut out, 3);
    push_u64(&mut out, 0);
    push_u64(&mut out, 5);
    push_kv_str_array(&mut out, "tokenizer.ggml.tokens", tokens);
    let scores: Vec<f32> = tokens.iter().map(|_| 0.0).collect();
    push_kv_f32_array(&mut out, "tokenizer.ggml.scores", &scores);
    push_kv_u32(&mut out, "tokenizer.ggml.bos_token_id", 1);
    push_kv_u32(&mut out, "tokenizer.ggml.eos_token_id", 2);
    push_kv_str_array(&mut out, "tokenizer.ggml.merges", merges);
    out
}

const FIXTURE_TOKENS: [&str; 8] = ["<pad>", "<bos>", "<eos>", "a", "b", "c", "ab", "ba"];

fn fixture_tokenizer() -> BpeTokenizer {
    let bytes = tokenizer_fixture(&FIXTURE_TOKENS, &["a b"]);
    let img = GgufFile::parse(&bytes).unwrap();
    BpeTokenizer::from_gguf(&img.metadata).unwrap()
}

#[test]
fn test_vocab_from_gguf() {
    let bytes = tokenizer_fixture(&FIXTURE_TOKENS, &[]);
    let img = GgufFile::parse(&bytes).unwrap();
    let v = Vocab::from_gguf(&img.metadata).unwrap();
    assert_eq!(v.len(), 8);
    assert!(!v.is_empty());
    assert_eq!(v.bos_id, 1);
    assert_eq!(v.eos_id, 2);
    assert_eq!(v.token_to_id(b"ab"), Some(6));
    assert_eq!(v.token_to_id(b"zz"), None);
}

#[test]
fn test_vocab_length_mismatch() {
    let mut out = Vec::new();
    out.extend_from_slice(b"GGUF");
    push_u32(&mut out, 3);
    push_u64(&mut out, 0);
    push_u64(&mut out, 4);
    push_kv_str_array(&mut out, "tokenizer.ggml.tokens", &["a", "b"]);
    push_kv_f32_array(&mut out, "tokenizer.ggml.scores", &[0.0]);
    push_kv_u32(&mut out, "tokenizer.ggml.bos_token_id", 0);
    push_kv_u32(&mut out, "tokenizer.ggml.eos_token_id", 1);
    let img = GgufFile::parse(&out).unwrap();
    assert!(matches!(
        Vocab::from_gguf(&img.metadata),
        Err(ModelError::TokenizerError(_))
    ));
}

#[test]
fn test_missing_tokens_key() {
    let mut out = Vec::new();
    out.extend_from_slice(b"GGUF");
    push_u32(&mut out, 3);
    push_u64(&mut out, 0);
    push_u64(&mut out, 0);
    let img = GgufFile::parse(&out).unwrap();
    assert!(matches!(
        Vocab::from_gguf(&img.metadata),
        Err(ModelError::MissingKey(_))
    ));
}

#[test]
fn test_invalid_merge_entry() {
    let bytes = tokenizer_fixture(&FIXTURE_TOKENS, &["nospace"]);
    let img = GgufFile::parse(&bytes).unwrap();
    assert!(matches!(
        BpeTokenizer::from_gguf(&img.metadata),
        Err(ModelError::TokenizerError(_))
    ));
    let bytes2 = tokenizer_fixture(&FIXTURE_TOKENS, &["two  spaces"]);
    let img2 = GgufFile::parse(&bytes2).unwrap();
    assert!(BpeTokenizer::from_gguf(&img2.metadata).is_err());
}

#[test]
fn test_merges_optional() {
    let bytes = {
        let mut out = Vec::new();
        out.extend_from_slice(b"GGUF");
        push_u32(&mut out, 3);
        push_u64(&mut out, 0);
        push_u64(&mut out, 4);
        push_kv_str_array(&mut out, "tokenizer.ggml.tokens", &FIXTURE_TOKENS);
        push_kv_f32_array(&mut out, "tokenizer.ggml.scores", &[0.0; 8]);
        push_kv_u32(&mut out, "tokenizer.ggml.bos_token_id", 1);
        push_kv_u32(&mut out, "tokenizer.ggml.eos_token_id", 2);
        out
    };
    let img = GgufFile::parse(&bytes).unwrap();
    let t = BpeTokenizer::from_gguf(&img.metadata).unwrap();
    assert_eq!(t.bos_id(), 1);
    assert_eq!(t.eos_id(), 2);
    // With no merges, encoding never merges.
    assert_eq!(t.encode(b"ab"), vec![3, 4]);
}

#[test]
fn test_encode_empty() {
    let t = fixture_tokenizer();
    assert_eq!(t.encode(b""), Vec::<u32>::new());
}

#[test]
fn test_encode_merge() {
    let t = fixture_tokenizer();
    // 'a' and 'b' are adjacent, the ranked pair merges to "ab" (id 6).
    assert_eq!(t.encode(b"ab"), vec![6]);
    // 'b' then 'a' has no ranked pair.
    assert_eq!(t.encode(b"ba"), vec![4, 3]);
    // The merge applies wherever the pair is adjacent.
    assert_eq!(t.encode(b"cab"), vec![5, 6]);
}

#[test]
fn test_encode_space_fixture() {
    let t = fixture_tokenizer();
    // The space is in neither character nor byte-level form, so it
    // resolves to the unknown ID 0 and blocks the "a b" merge pair,
    // which only joins adjacent tokens.
    assert_eq!(t.encode(b"a b"), vec![3, 0, 4]);
}

#[test]
fn test_encode_unknown_byte() {
    let t = fixture_tokenizer();
    // 'z' is not in the vocabulary in any form.
    assert_eq!(t.encode(b"z"), vec![0]);
}

#[test]
fn test_encode_deterministic() {
    let t = fixture_tokenizer();
    let a = t.encode(b"abcab");
    let b = t.encode(b"abcab");
    assert_eq!(a, b);
}

#[test]
fn test_decode_fixture() {
    let t = fixture_tokenizer();
    // Token 3 is "a", token 6 is "ab".
    assert_eq!(t.decode(&[3, 6]), b"aab".to_vec());
    // Out-of-range IDs contribute nothing.
    assert_eq!(t.decode(&[3, 99]), b"a".to_vec());
    assert_eq!(t.decode(&[]), Vec::<u8>::new());
}

#[test]
fn test_decode_byte_token() {
    let tokens = ["<pad>", "<bos>", "<eos>", "<0x41>", "<0x6a>"];
    let bytes = tokenizer_fixture(&tokens, &[]);
    let img = GgufFile::parse(&bytes).unwrap();
    let t = BpeTokenizer::from_gguf(&img.metadata).unwrap();
    // Byte-level tokens turn back into their byte, either hex case.
    assert_eq!(t.decode(&[3, 4]), vec![0x41, 0x6a]);
}

#[test]
fn test_encode_byte_fallback() {
    let tokens = ["<pad>", "<bos>", "<eos>", "<0x41>"];
    let bytes = tokenizer_fixture(&tokens, &[]);
    let img = GgufFile::parse(&bytes).unwrap();
    let t = BpeTokenizer::from_gguf(&img.metadata).unwrap();
    // 'A' is not present as a character, but its byte-level form is.
    assert_eq!(t.encode(b"A"), vec![3]);
    // Round trip through the byte-level form.
    assert_eq!(t.decode(&t.encode(b"A")), b"A".to_vec());
}

#[test]
fn test_ascii_round_trip() {
    // Characters individually present, merge results present, no
    // byte-form tokens: decode(encode(s)) == s.
    let t = fixture_tokenizer();
    for s in [&b"a"[..], b"ab", b"ba", b"abc", b"cba", b"aabbcc"] {
        assert_eq!(t.decode(&t.encode(s)), s.to_vec(), "round trip of {:?}", s);
    }
}
