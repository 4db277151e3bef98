use ir_core::dtype::DType;
use ir_core::error::{GgufValueType, ModelError};
use ir_core::gguf::dequant::{unpack_f16_bits, unpack_f32_bits, unpack_q4_0, unpack_q8_0};
use ir_core::gguf::header::GgufHeader;
use ir_core::gguf::image::GgufFile;
use ir_core::gguf::tensor_info::GgufTensorInfo;

fn push_u32(out: &mut Vec<u8>, x: u32) {
    out.extend_from_slice(&x.to_le_bytes());
}

fn push_u64(out: &mut Vec<u8>, x: u64) {
    out.extend_from_slice(&x.to_le_bytes());
}

fn push_gguf_string(out: &mut Vec<u8>, s: &str) {
    push_u64(out, s.len() as u64);
    out.extend_from_slice(s.as_bytes());
}

fn push_kv_u32(out: &mut Vec<u8>, key: &str, v: u32) {
    push_gguf_string(out, key);
    push_u32(out, 4);
    push_u32(out, v);
}

fn push_kv_f32(out: &mut Vec<u8>, key: &str, v: f32) {
    push_gguf_string(out, key);
    push_u32(out, 6);
    out.extend_from_slice(&v.to_le_bytes());
}

fn push_kv_str_array(out: &mut Vec<u8>, key: &str, vals: &[&str]) {
    push_gguf_string(out, key);
    push_u32(out, 9);
    push_u32(out, 8);
    push_u64(out, vals.len() as u64);
    for v in vals {
        push_gguf_string(out, v);
    }
}

fn push_kv_f32_array(out: &mut Vec<u8>, key: &str, vals: &[f32]) {
    push_gguf_string(out, key);
    push_u32(out, 9);
    push_u32(out, 6);
    push_u64(out, vals.len() as u64);
    for v in vals {
        out.extend_from_slice(&v.to_le_bytes());
    }
}

const FIXTURE_TOKENS: [&str; 8] = ["<pad>", "<bos>", "<eos>", "a", "b", "c", "ab", "ba"];

/// A minimal GGUF image with the required LLaMA metadata, one tiny F32
/// tensor, and the synthetic fixture vocabulary.
fn fixture_bytes() -> Vec<u8> {
    let mut out = Vec::new();
    out.extend_from_slice(b"GGUF");
    push_u32(&mut out, 3);
    push_u64(&mut out, 1); // tensor count
    push_u64(&mut out, 12); // kv count

    push_kv_u32(&mut out, "llama.embedding_length", 4);
    push_kv_u32(&mut out, "llama.attention.head_count", 2);
    push_kv_u32(&mut out, "llama.attention.head_count_kv", 1);
    push_kv_u32(&mut out, "llama.block_count", 2);
    push_kv_u32(&mut out, "llama.feed_forward_length", 8);
    push_kv_f32(&mut out, "llama.attention.layer_norm_rms_epsilon", 1e-5);
    push_kv_u32(&mut out, "llama.context_length", 16);
    push_kv_f32(&mut out, "llama.rope.freq_base", 10000.0);
    push_kv_str_array(&mut out, "tokenizer.ggml.tokens", &FIXTURE_TOKENS);
    push_kv_f32_array(&mut out, "tokenizer.ggml.scores", &[0.0; 8]);
    push_kv_u32(&mut out, "tokenizer.ggml.bos_token_id", 1);
    push_kv_u32(&mut out, "tokenizer.ggml.eos_token_id", 2);

    // One tensor: "t" of shape [2, 2], F32, at offset 0.
    push_gguf_string(&mut out, "t");
    push_u32(&mut out, 2);
    push_u64(&mut out, 2);
    push_u64(&mut out, 2);
    push_u32(&mut out, 0); // F32
    push_u64(&mut out, 0);

    // Pad to 32-byte alignment, followed by the tensor data.
    while out.len() % 32 != 0 {
        out.push(0);
    }
    for v in [1.0f32, 2.0, 3.0, 4.0] {
        out.extend_from_slice(&v.to_le_bytes());
    }
    out
}

#[test]
fn test_header_parse() {
    let bytes = fixture_bytes();
    let (h, pos) = GgufHeader::parse(&bytes).unwrap();
    assert_eq!(h.version, 3);
    assert_eq!(h.n_tensors, 1);
    assert_eq!(h.n_kv, 12);
    assert_eq!(pos, 24);
}

#[test]
fn test_header_bad_magic() {
    let mut bytes = fixture_bytes();
    bytes[0] = b'X';
    match GgufHeader::parse(&bytes) {
        Err(ModelError::InvalidMagic(m)) => assert_eq!(m, [b'X', b'G', b'U', b'F']),
        other => panic!("expected InvalidMagic, got {:?}", other),
    }
}

#[test]
fn test_header_bad_version() {
    let mut bytes = fixture_bytes();
    bytes[4] = 2;
    match GgufHeader::parse(&bytes) {
        Err(ModelError::UnsupportedVersion(v)) => assert_eq!(v, 2),
        other => panic!("expected UnsupportedVersion, got {:?}", other),
    }
}

#[test]
fn test_header_truncated() {
    let bytes = fixture_bytes();
    assert!(matches!(GgufHeader::parse(&bytes[..10]), Err(ModelError::Io)));
}

#[test]
fn test_metadata_roundtrip() {
    // Every required key yields the expected type and value; a lookup at
    // the wrong type is TypeMismatch, never a value; a missing key is
    // MissingKey.
    let bytes = fixture_bytes();
    let img = GgufFile::parse(&bytes).unwrap();
    let md = &img.metadata;

    assert_eq!(md.get_u32(b"llama.embedding_length").unwrap(), 4);
    assert_eq!(md.get_u32(b"llama.attention.head_count").unwrap(), 2);
    assert_eq!(md.get_u32(b"llama.attention.head_count_kv").unwrap(), 1);
    assert_eq!(md.get_u32(b"llama.block_count").unwrap(), 2);
    assert_eq!(md.get_u32(b"llama.feed_forward_length").unwrap(), 8);
    assert_eq!(
        md.get_f32(b"llama.attention.layer_norm_rms_epsilon").unwrap(),
        1e-5f32.to_bits()
    );
    assert_eq!(md.get_u32(b"llama.context_length").unwrap(), 16);
    assert_eq!(md.get_u32(b"tokenizer.ggml.bos_token_id").unwrap(), 1);
    assert_eq!(md.get_u32(b"tokenizer.ggml.eos_token_id").unwrap(), 2);

    let toks = md.get_string_array(b"tokenizer.ggml.tokens").unwrap();
    assert_eq!(toks.len(), 8);
    assert_eq!(toks[3], b"a".to_vec());
    assert_eq!(toks[6], b"ab".to_vec());
    let scores = md.get_f32_array(b"tokenizer.ggml.scores").unwrap();
    assert_eq!(scores, vec![0.0f32.to_bits(); 8]);

    match md.get_u64(b"llama.embedding_length") {
        Err(ModelError::TypeMismatch { expected, got, .. }) => {
            assert_eq!(expected, GgufValueType::U64);
            assert_eq!(got, GgufValueType::U32);
        }
        other => panic!("expected TypeMismatch, got {:?}", other),
    }
    match md.get_u32(b"no.such.key") {
        Err(ModelError::MissingKey(k)) => assert_eq!(k, b"no.such.key".to_vec()),
        other => panic!("expected MissingKey, got {:?}", other),
    }
}

#[test]
fn test_tensor_info_and_data() {
    let bytes = fixture_bytes();
    let img = GgufFile::parse(&bytes).unwrap();
    assert_eq!(img.tensor_infos.len(), 1);
    let info = img.find_tensor(b"t").unwrap();
    assert_eq!(info.dtype, DType::F32);
    assert_eq!(info.dims, vec![2, 2]);
    assert_eq!(info.numel(), 4);
    assert_eq!(info.data_size(), 16);
    assert_eq!(img.data_offset % 32, 0);

    let raw = img.tensor_data(&bytes, info);
    let vals = unpack_f32_bits(raw, 4);
    assert_eq!(vals[0], 1.0f32.to_bits());
    assert_eq!(vals[3], 4.0f32.to_bits());

    assert!(img.find_tensor(b"missing").is_none());
}

#[test]
fn test_unsupported_tensor_type() {
    let mut out = Vec::new();
    out.extend_from_slice(b"GGUF");
    push_u32(&mut out, 3);
    push_u64(&mut out, 1);
    push_u64(&mut out, 0);
    push_gguf_string(&mut out, "bad");
    push_u32(&mut out, 1);
    push_u64(&mut out, 2);
    push_u32(&mut out, 999); // unknown GGUF type ID
    push_u64(&mut out, 0);
    match GgufFile::parse(&out) {
        Err(ModelError::UnsupportedGgufType(id)) => assert_eq!(id, 999),
        Err(other) => panic!("expected UnsupportedGgufType, got {:?}", other),
        Ok(_) => panic!("expected UnsupportedGgufType, got a parsed image"),
    }
}

#[test]
fn test_invalid_utf8_string() {
    let mut out = Vec::new();
    out.extend_from_slice(b"GGUF");
    push_u32(&mut out, 3);
    push_u64(&mut out, 0);
    push_u64(&mut out, 1);
    // A key with invalid UTF-8 bytes.
    push_u64(&mut out, 2);
    out.push(0xFF);
    out.push(0xFE);
    push_u32(&mut out, 4);
    push_u32(&mut out, 7);
    assert!(GgufFile::parse(&out).is_err());
}

#[test]
fn test_unpack_q4_0() {
    // One block: scale 0.5, bytes packing nibbles 0..;
    // out[2i] = (byte & 0x0F - 8) * scale, out[2i+1] = ((byte >> 4) - 8) * scale.
    // byte_i = lo | hi<<4 with lo = i, hi = 15 - i.
    let scale = half::f16::from_f32(0.5);
    let mut raw = Vec::new();
    raw.extend_from_slice(&scale.to_bits().to_le_bytes());
    for i in 0..16u8 {
        raw.push(i | ((15 - i) << 4));
    }
    let out = unpack_q4_0(&raw, 32);
    assert_eq!(out.len(), 32);
    for i in 0..16usize {
        let (s_lo, q_lo) = out[2 * i];
        let (s_hi, q_hi) = out[2 * i + 1];
        assert_eq!(s_lo, scale.to_bits());
        assert_eq!(s_hi, scale.to_bits());
        assert_eq!(q_lo, i as i8 - 8);
        assert_eq!(q_hi, (15 - i as i8) - 8);
        // The numeric value the pair denotes.
        let v = half::f16::from_bits(s_lo).to_f32() * q_lo as f32;
        assert_eq!(v, (i as f32 - 8.0) * 0.5);
    }
    // Truncation to numel below a whole block.
    let out5 = unpack_q4_0(&raw, 5);
    assert_eq!(out5.len(), 5);
    assert_eq!(out5[4], out[4]);
}

#[test]
fn test_unpack_q8_0() {
    let scale = half::f16::from_f32(2.0);
    let mut raw = Vec::new();
    raw.extend_from_slice(&scale.to_bits().to_le_bytes());
    for i in 0..32i32 {
        raw.push((i - 16) as i8 as u8);
    }
    let out = unpack_q8_0(&raw, 32);
    assert_eq!(out.len(), 32);
    for i in 0..32usize {
        let (s, q) = out[i];
        assert_eq!(s, scale.to_bits());
        assert_eq!(q, i as i8 - 16);
        let v = half::f16::from_bits(s).to_f32() * q as f32;
        assert_eq!(v, (i as f32 - 16.0) * 2.0);
    }
}

#[test]
fn test_unpack_f16() {
    let mut raw = Vec::new();
    for v in [1.0f32, -2.5, 0.0] {
        raw.extend_from_slice(&half::f16::from_f32(v).to_bits().to_le_bytes());
    }
    let out = unpack_f16_bits(&raw, 3);
    assert_eq!(out.len(), 3);
    assert_eq!(half::f16::from_bits(out[1]).to_f32(), -2.5);
}

#[test]
fn test_nested_array() {
    // Arrays may nest: an array of two u32 arrays parses, and the entry
    // is visible as an Array value.
    let mut out = Vec::new();
    out.extend_from_slice(b"GGUF");
    push_u32(&mut out, 3);
    push_u64(&mut out, 0);
    push_u64(&mut out, 1);
    push_gguf_string(&mut out, "nested");
    push_u32(&mut out, 9); // array
    push_u32(&mut out, 9); // of arrays
    push_u64(&mut out, 2);
    for _ in 0..2 {
        push_u32(&mut out, 4); // of u32
        push_u64(&mut out, 2);
        push_u32(&mut out, 7);
        push_u32(&mut out, 8);
    }
    let img = GgufFile::parse(&out).unwrap();
    match img.metadata.lookup(b"nested") {
        Some(ir_core::gguf::metadata::GgufMetadataValue::Array(vs)) => assert_eq!(vs.len(), 2),
        other => panic!("expected an array value, got {:?}", other),
    }
}

#[test]
fn test_scalar_value_kinds() {
    // One entry of each remaining scalar kind, read back through the
    // typed getters.
    let mut out = Vec::new();
    out.extend_from_slice(b"GGUF");
    push_u32(&mut out, 3);
    push_u64(&mut out, 0);
    push_u64(&mut out, 3);
    push_gguf_string(&mut out, "an.i32");
    push_u32(&mut out, 5);
    out.extend_from_slice(&(-5i32).to_le_bytes());
    push_gguf_string(&mut out, "a.u64");
    push_u32(&mut out, 10);
    push_u64(&mut out, 1 << 40);
    push_gguf_string(&mut out, "a.string");
    push_u32(&mut out, 8);
    push_gguf_string(&mut out, "hello");
    let img = GgufFile::parse(&out).unwrap();
    assert_eq!(img.metadata.get_i32(b"an.i32").unwrap(), -5);
    assert_eq!(img.metadata.get_u64(b"a.u64").unwrap(), 1 << 40);
    assert_eq!(img.metadata.get_string(b"a.string").unwrap(), b"hello".to_vec());
}

#[test]
fn test_duplicate_key_last_wins() {
    let mut out = Vec::new();
    out.extend_from_slice(b"GGUF");
    push_u32(&mut out, 3);
    push_u64(&mut out, 0);
    push_u64(&mut out, 2);
    push_kv_u32(&mut out, "twice", 1);
    push_kv_u32(&mut out, "twice", 2);
    let img = GgufFile::parse(&out).unwrap();
    assert_eq!(img.metadata.get_u32(b"twice").unwrap(), 2);
}

#[test]
fn test_mixed_array_element_kind() {
    // A string array holding an f32 in the middle reports a mismatch
    // naming the offending element's kind.
    let mut out = Vec::new();
    out.extend_from_slice(b"GGUF");
    push_u32(&mut out, 3);
    push_u64(&mut out, 0);
    push_u64(&mut out, 1);
    push_kv_f32_array(&mut out, "floats", &[1.0, 2.0]);
    let img = GgufFile::parse(&out).unwrap();
    match img.metadata.get_string_array(b"floats") {
        Err(ModelError::TypeMismatch { key, expected, got }) => {
            // The key names the offending element's index.
            assert_eq!(key, b"floats[0]".to_vec());
            assert_eq!(expected, GgufValueType::Str);
            assert_eq!(got, GgufValueType::F32);
        }
        other => panic!("expected TypeMismatch, got {:?}", other),
    }
    // The element index counts from the start of the array.
    let mut out2 = Vec::new();
    out2.extend_from_slice(b"GGUF");
    push_u32(&mut out2, 3);
    push_u64(&mut out2, 0);
    push_u64(&mut out2, 1);
    push_gguf_string(&mut out2, "mixed");
    push_u32(&mut out2, 9);
    push_u32(&mut out2, 8); // declared element type: string
    push_u64(&mut out2, 2);
    push_gguf_string(&mut out2, "fine");
    push_gguf_string(&mut out2, "alsofine");
    let img2 = GgufFile::parse(&out2).unwrap();
    match img2.metadata.get_f32_array(b"mixed") {
        Err(ModelError::TypeMismatch { key, expected, got }) => {
            assert_eq!(key, b"mixed[0]".to_vec());
            assert_eq!(expected, GgufValueType::F32);
            assert_eq!(got, GgufValueType::Str);
        }
        other => panic!("expected TypeMismatch, got {:?}", other),
    }
}

#[test]
fn test_checked_sizes() {
    let info = GgufTensorInfo {
        name: b"t".to_vec(),
        n_dims: 2,
        dims: vec![2, 2],
        dtype: DType::F32,
        offset: 0,
    };
    assert_eq!(info.checked_numel(), Some(4));
    assert_eq!(info.checked_data_size(), Some(16));
    // Overflowing dimensions are rejected instead of wrapping.
    let huge = GgufTensorInfo {
        name: b"h".to_vec(),
        n_dims: 2,
        dims: vec![u64::MAX, 2],
        dtype: DType::Q4_0,
        offset: 0,
    };
    assert_eq!(huge.checked_numel(), None);
    assert_eq!(huge.checked_data_size(), None);
    // A zero dimension keeps everything small, whatever sits before it.
    let zero = GgufTensorInfo {
        name: b"z".to_vec(),
        n_dims: 2,
        dims: vec![7, 0],
        dtype: DType::Q8_0,
        offset: 0,
    };
    assert_eq!(zero.checked_numel(), Some(0));
    assert_eq!(zero.checked_data_size(), Some(0));
}
