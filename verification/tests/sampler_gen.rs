use ir_core::generate::{IRGenerateParams, IRStatus, StreamLoop};
use ir_core::model::config::LlamaConfig;
use ir_core::model::kv_cache::KvCache;
use ir_core::gguf::wire::u32_decimal;
use ir_core::model::weights::layer_weight_name;
use ir_core::sampler::greedy::{DistSampler, GreedySampler};
use ir_core::sampler::repetition::RepetitionPenaltySampler;
use ir_core::sampler::temperature::TemperatureSampler;
use ir_core::sampler::top_k::TopKSampler;
use ir_core::sampler::top_p::TopPSampler;
use ir_core::sampler::{sort_logits_desc, TokenLogit};

fn logits_of(vals: &[f32]) -> Vec<TokenLogit> {
    vals.iter()
        .enumerate()
        .map(|(i, &v)| TokenLogit { token_id: i as u32, logit_bits: v.to_bits() })
        .collect()
}

#[test]
fn test_sort_desc() {
    let mut l = logits_of(&[1.0, 3.0, -2.0, 0.0, 2.5]);
    sort_logits_desc(&mut l);
    let vals: Vec<f32> = l.iter().map(|t| f32::from_bits(t.logit_bits)).collect();
    assert_eq!(vals, vec![3.0, 2.5, 1.0, 0.0, -2.0]);
}

#[test]
fn test_sort_negative_zero() {
    let mut l = logits_of(&[-0.0, 1.0, 0.0]);
    sort_logits_desc(&mut l);
    assert_eq!(f32::from_bits(l[0].logit_bits), 1.0);
}

#[test]
fn test_greedy_argmax() {
    let g = GreedySampler::new();
    let mut l = logits_of(&[0.5, 4.0, -1.0, 4.0]);
    g.apply(&mut l);
    assert_eq!(l.len(), 1);
    // Leftmost of the two equal maxima.
    assert_eq!(l[0].token_id, 1);
}

#[test]
fn test_greedy_empty_and_zero() {
    let g = GreedySampler::new();
    let mut empty: Vec<TokenLogit> = Vec::new();
    g.apply(&mut empty);
    assert!(empty.is_empty());
    // All-zero logits: greedy selection returns token 0.
    let mut zeros = logits_of(&[0.0; 8]);
    g.apply(&mut zeros);
    assert_eq!(zeros[0].token_id, 0);
}

#[test]
fn test_top_k_truncates() {
    let k = TopKSampler::new(2);
    let mut l = logits_of(&[1.0, 2.0, 0.5, 3.0]);
    k.apply(&mut l);
    assert_eq!(l.len(), 2);
    let ids: Vec<u32> = l.iter().map(|t| t.token_id).collect();
    assert_eq!(ids, vec![3, 1]);
}

#[test]
fn test_top_k_noop() {
    let mut l = logits_of(&[1.0, 2.0]);
    TopKSampler::new(0).apply(&mut l);
    assert_eq!(l.len(), 2);
    TopKSampler::new(5).apply(&mut l);
    assert_eq!(l.len(), 2);
    assert_eq!(l[0].token_id, 0);
}

#[test]
fn test_temperature_then_top_k_then_greedy() {
    // Temperature 0.5 on [1.0, 2.0, 0.5, 3.0] gives [2, 4, 1, 6];
    // top-k-2 keeps ids {3, 1}; greedy picks id 3.
    let temp = TemperatureSampler::new(0.5f32.to_bits());
    let t = f32::from_bits(temp.temperature_bits);
    let mut l = logits_of(&[1.0, 2.0, 0.5, 3.0]);
    for tl in l.iter_mut() {
        tl.logit_bits = (f32::from_bits(tl.logit_bits) / t).to_bits();
    }
    let after: Vec<f32> = l.iter().map(|t| f32::from_bits(t.logit_bits)).collect();
    assert_eq!(after, vec![2.0, 4.0, 1.0, 6.0]);
    TopKSampler::new(2).apply(&mut l);
    let mut ids: Vec<u32> = l.iter().map(|t| t.token_id).collect();
    ids.sort_unstable();
    assert_eq!(ids, vec![1, 3]);
    GreedySampler::new().apply(&mut l);
    assert_eq!(l[0].token_id, 3);
}

#[test]
fn test_top_p_cutoff() {
    // softmax([10, 9, 1, 1, 1, 1]): the first term is about 0.73, the
    // first two about 0.9997; with p = 0.9 the cutoff is 2.
    let logits = [10.0f32, 9.0, 1.0, 1.0, 1.0, 1.0];
    let max = logits.iter().cloned().fold(f32::NEG_INFINITY, f32::max);
    let exps: Vec<f32> = logits.iter().map(|&x| (x - max).exp()).collect();
    let sum: f32 = exps.iter().sum();
    let mut cum = Vec::new();
    let mut acc = 0.0f32;
    for e in &exps {
        acc += e / sum;
        cum.push(acc.to_bits());
    }
    let tp = TopPSampler::new(0.9f32.to_bits());
    assert_eq!(tp.cutoff(&cum), 2);
    // A threshold above every cumulative sum keeps everything.
    let tp_all = TopPSampler::new(2.0f32.to_bits());
    assert_eq!(tp_all.cutoff(&cum), 6);
    // A tiny threshold still keeps at least one.
    let tp_one = TopPSampler::new(0.0f32.to_bits());
    assert_eq!(tp_one.cutoff(&cum), 1);
}

#[test]
fn test_dist_pick() {
    let d = DistSampler::new(42);
    assert_eq!(d.seed, 42);
    let cum: Vec<u32> = [0.3f32, 0.7, 1.0].iter().map(|v| v.to_bits()).collect();
    assert_eq!(d.pick(&cum, 0.1f32.to_bits()), 0);
    assert_eq!(d.pick(&cum, 0.5f32.to_bits()), 1);
    assert_eq!(d.pick(&cum, 0.9f32.to_bits()), 2);
    // A draw at or past the total clamps to the last index.
    assert_eq!(d.pick(&cum, 1.5f32.to_bits()), 2);
}

#[test]
fn test_repetition_window() {
    let mut r = RepetitionPenaltySampler::new(1.1f32.to_bits(), 3);
    assert!(!r.contains(7));
    r.add_token(7);
    r.add_token(8);
    r.add_token(9);
    assert!(r.contains(7) && r.contains(8) && r.contains(9));
    // Pushing onto a full window drops the oldest.
    r.add_token(10);
    assert!(!r.contains(7));
    assert!(r.contains(10));
    r.reset();
    assert!(!r.contains(10));
}

#[test]
fn test_params_default() {
    let p = IRGenerateParams::default();
    assert_eq!(p.max_tokens, 256);
    assert_eq!(f32::from_bits(p.temperature_bits), 0.8);
    assert_eq!(p.top_k, 40);
    assert_eq!(f32::from_bits(p.top_p_bits), 0.95);
    assert_eq!(f32::from_bits(p.repetition_penalty_bits), 1.1);
    assert_eq!(p.seed, 0);
    assert_eq!(IRStatus::Success, IRStatus::Success);
    assert_ne!(IRStatus::Success, IRStatus::ErrorGenerate);
}

#[test]
fn test_stream_loop_budget() {
    // max_tokens = 3, the end-of-sequence token never sampled: exactly
    // three tokens are emitted, and the loop ends by budget.
    let mut sl = StreamLoop::new(3, 2);
    let mut emissions = 0;
    while !sl.done {
        let emit = sl.on_sampled(5);
        if emit {
            emissions += 1;
            sl.on_callback(true);
        }
    }
    assert_eq!(emissions, 3);
    assert_eq!(sl.emitted, 3);
}

#[test]
fn test_stream_loop_callback_stop() {
    // The callback declining after the first token stops the loop with
    // one emission.
    let mut sl = StreamLoop::new(3, 2);
    let emit = sl.on_sampled(5);
    assert!(emit);
    sl.on_callback(false);
    assert!(sl.done);
    assert_eq!(sl.emitted, 1);
}

#[test]
fn test_stream_loop_zero_budget() {
    // A budget of zero emits nothing: the loop ends before the first
    // token goes out.
    let mut sl = StreamLoop::new(0, 2);
    let emit = sl.on_sampled(5);
    assert!(!emit);
    assert!(sl.done);
    assert_eq!(sl.emitted, 0);
}

#[test]
fn test_stream_loop_eos() {
    let mut sl = StreamLoop::new(10, 2);
    let emit = sl.on_sampled(2);
    assert!(!emit);
    assert!(sl.done);
    assert_eq!(sl.emitted, 0);
}

#[test]
fn test_kv_cache_monotone() {
    let mut c = KvCache::new(2, 1, 2, 16);
    assert_eq!(c.len, 0);
    let k = [1.0f32.to_bits(), 2.0f32.to_bits()];
    let v = [3.0f32.to_bits(), 4.0f32.to_bits()];
    c.update(0, &k, &v, 0);
    c.update(0, &k, &v, 1);
    c.update(1, &k, &v, 1);
    assert_eq!(c.len, 2);
    // Writing an earlier position never shrinks the length.
    c.update(1, &k, &v, 0);
    assert_eq!(c.len, 2);
    let row = c.get_k(0, 2);
    assert_eq!(row[0], 1.0f32.to_bits());
    assert_eq!(row[2], 1.0f32.to_bits());
    let vrow = c.get_v(1, 2);
    assert_eq!(vrow[2], 3.0f32.to_bits());
}

#[test]
fn test_kv_cache_reset() {
    // After reset the cache is indistinguishable from a fresh one.
    let mut c = KvCache::new(2, 1, 2, 16);
    let k = [5.0f32.to_bits(), 6.0f32.to_bits()];
    c.update(0, &k, &k, 3);
    c.reset();
    assert_eq!(c.len, 0);
    let fresh = KvCache::new(2, 1, 2, 16);
    assert_eq!(c.get_k(0, 16), fresh.get_k(0, 16));
    assert_eq!(c.get_v(1, 16), fresh.get_v(1, 16));
    assert!(c.get_k(0, 16).iter().all(|&x| x == 0));
}

#[test]
fn test_layer_weight_names() {
    assert_eq!(u32_decimal(0), b"0".to_vec());
    assert_eq!(u32_decimal(1234567890), b"1234567890".to_vec());
    assert_eq!(
        layer_weight_name(0, "attn_q"),
        b"blk.0.attn_q.weight".to_vec()
    );
    assert_eq!(
        layer_weight_name(17, "ffn_down"),
        b"blk.17.ffn_down.weight".to_vec()
    );
}

#[test]
fn test_config_from_fixture() {
    let bytes = config_fixture(true);
    let img = ir_core::gguf::image::GgufFile::parse(&bytes).unwrap();
    let c = LlamaConfig::from_gguf(&img.metadata).unwrap();
    assert_eq!(c.n_vocab, 8);
    assert_eq!(c.n_embd, 4);
    assert_eq!(c.n_heads, 2);
    assert_eq!(c.n_kv_heads, 1);
    assert_eq!(c.n_layers, 2);
    assert_eq!(c.n_ff, 8);
    assert_eq!(c.max_seq_len, 16);
    assert_eq!(c.head_dim, 2);
    assert_eq!(f32::from_bits(c.norm_eps_bits), 1e-5);
    assert_eq!(f32::from_bits(c.rope_theta_bits), 10000.0);
}

#[test]
fn test_config_default_rope_theta() {
    let bytes = config_fixture(false);
    let img = ir_core::gguf::image::GgufFile::parse(&bytes).unwrap();
    let c = LlamaConfig::from_gguf(&img.metadata).unwrap();
    // Absent from the file: the default 10000.0.
    assert_eq!(f32::from_bits(c.rope_theta_bits), 10000.0);
}

fn push_u32(out: &mut Vec<u8>, x: u32) {
    out.extend_from_slice(&x.to_le_bytes());
}

fn push_u64(out: &mut Vec<u8>, x: u64) {
    out.extend_from_slice(&x.to_le_bytes());
}

fn push_gguf_string(out: &mut Vec<u8>, s: &str) {
    push_u64(out, s.len() as u64);
    out.extend_from_slice(s.as_bytes());
}

fn push_kv_u32(out: &mut Vec<u8>, key: &str, v: u32) {
    push_gguf_string(out, key);
    push_u32(out, 4);
    push_u32(out, v);
}

fn push_kv_f32(out: &mut Vec<u8>, key: &str, v: f32) {
    push_gguf_string(out, key);
    push_u32(out, 6);
    out.extend_from_slice(&v.to_le_bytes());
}

fn push_kv_str_array(out: &mut Vec<u8>, key: &str, vals: &[&str]) {
    push_gguf_string(out, key);
    push_u32(out, 9);
    push_u32(out, 8);
    push_u64(out, vals.len() as u64);
    for v in vals {
        push_gguf_string(out, v);
    }
}

fn config_fixture(with_rope: bool) -> Vec<u8> {
    let mut out = Vec::new();
    out.extend_from_slice(b"GGUF");
    push_u32(&mut out, 3);
    push_u64(&mut out, 0);
    push_u64(&mut out, if with_rope { 9 } else { 8 });
    push_kv_u32(&mut out, "llama.embedding_length", 4);
    push_kv_u32(&mut out, "llama.attention.head_count", 2);
    push_kv_u32(&mut out, "llama.attention.head_count_kv", 1);
    push_kv_u32(&mut out, "llama.block_count", 2);
    push_kv_u32(&mut out, "llama.feed_forward_length", 8);
    push_kv_f32(&mut out, "llama.attention.layer_norm_rms_epsilon", 1e-5);
    push_kv_u32(&mut out, "llama.context_length", 16);
    if with_rope {
        push_kv_f32(&mut out, "llama.rope.freq_base", 10000.0);
    }
    push_kv_str_array(
        &mut out,
        "tokenizer.ggml.tokens",
        &["<pad>", "<bos>", "<eos>", "a", "b", "c", "ab", "ba"],
    );
    out
}

#[test]
fn test_sort_stable_on_ties() {
    // Entries with equal logits keep their relative order.
    let mut l = logits_of(&[2.0, 4.0, 2.0, 3.0]);
    sort_logits_desc(&mut l);
    let ids: Vec<u32> = l.iter().map(|t| t.token_id).collect();
    assert_eq!(ids, vec![1, 3, 0, 2]);
    let vals: Vec<f32> = l.iter().map(|t| f32::from_bits(t.logit_bits)).collect();
    assert_eq!(vals, vec![4.0, 3.0, 2.0, 2.0]);
}

#[test]
fn test_top_k_stable_on_ties() {
    // With a tie at the cut, the earlier entry survives.
    let k = TopKSampler::new(3);
    let mut l = logits_of(&[2.0, 4.0, 2.0, 3.0]);
    k.apply(&mut l);
    let ids: Vec<u32> = l.iter().map(|t| t.token_id).collect();
    assert_eq!(ids, vec![1, 3, 0]);
}
