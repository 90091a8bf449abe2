//! The hybrid model.

use owl::config::Config;
use owl::dtype::Dtype;
use owl::models::layers::attention::AttentionError;
use owl::models::layers::deltanet::{GdnError, HybridConfig};
use owl::models::layers::distributed::{Comm, HeadShardError};
use owl::models::layers::linear::Slice;
use owl::models::layers::mask::causal_mask;
use owl::models::layers::mlp::Activation;
use owl::models::layers::others::EmbeddingPlan;
use owl::models::layers::tensor::{GgmlDType, Shard};
use owl::models::layers::var_builder::{TensorEntry, VarBuilderX};
use owl::models::qwen3_5::{
    resolve_seq_slots, slot_source, BlockStep, DecodePtrs, ForwardCall, ForwardEnd, ForwardKind,
    HeadTypes, InputMetadata, LayerError, LayerNames, ModelNames, Qwen3_5AttnType,
    Qwen3_5DecoderLayer, Qwen3_5ForCausalLM, RotaryPlan, SlotError, SlotMapping, SlotSource,
};
use std::sync::Arc;

const HYBRID: HybridConfig = HybridConfig {
    num_v_heads: 8,
    num_k_heads: 4,
    key_head_dim: 16,
    value_head_dim: 32,
    conv_kernel_size: 4,
};

fn listing(is_gguf: bool, names: &[&str]) -> VarBuilderX {
    let entries: Vec<TensorEntry> = names
        .iter()
        .map(|n| TensorEntry { name: n.to_string(), shape: vec![1], dtype: GgmlDType::F32 })
        .collect();
    VarBuilderX { path: String::new(), is_gguf, gguf: Some(Arc::new(entries)), has_pool: true }
}

fn types() -> Vec<String> {
    ["linear_attention", "full_attention", "linear_attention", "full_attention"]
        .iter()
        .map(|t| t.to_string())
        .collect()
}

/// The bits of one millionth.
const EPS: u64 = 0x3eb0_c6f7_a0b5_ed8d;

fn config() -> Config {
    Config {
        architecture: "Qwen3_5ForCausalLM".to_string(),
        vocab_size: Some(100),
        hidden_size: 8,
        intermediate_size: 16,
        num_hidden_layers: 4,
        num_attention_heads: 4,
        num_key_value_heads: 2,
        head_dim: None,
        hidden_act: Activation::Silu,
        rms_norm_eps: EPS,
        rope_theta: Some(10_000_000.0f64.to_bits()),
        tie_word_embeddings: None,
        qkv_bias: None,
        attention_bias: None,
        attn_output_gate: None,
        output_gate_type: None,
        sliding_window: None,
        quant_method: None,
        is_mlx_nvfp4: false,
        sym: None,
        quantizes_on_load: false,
        is_f16_mode: false,
        higher_precision_required: false,
        mtp_enabled: false,
        mtp_max_verify_tokens: 0,
        layer_types: types(),
        hybrid: HYBRID,
    }
}

fn model_of(config: &Config) -> Qwen3_5ForCausalLM {
    let comm = Comm { world_size: 1, rank: 0 };
    Qwen3_5ForCausalLM::new(&listing(false, &[]), &comm, config, false, Dtype::BF16, true)
        .ok()
        .unwrap()
}

fn model() -> Qwen3_5ForCausalLM {
    model_of(&config())
}

#[test]
fn layer_names() {
    let vb = listing(false, &[]).pp("layers.0");
    let full = LayerNames::new(&vb, "full_attention");
    assert_eq!((full.attn.as_str(), full.mlp.as_str()), ("layers.0.self_attn", "layers.0.mlp"));
    assert_eq!(full.input_norm, "layers.0.input_layernorm");
    assert_eq!(LayerNames::new(&vb, "anything").attn, "layers.0.linear_attn");
    let file = LayerNames::new(&listing(true, &[]).pp("blk.0"), "full_attention");
    assert_eq!((file.attn.as_str(), file.input_norm.as_str()), ("blk.0", "blk.0.attn_norm"));
    assert_eq!(file.post_attention_norm, "blk.0.post_attention_norm");
}

#[test]
fn model_names() {
    let n = ModelNames::new(&listing(false, &[]), None, None, false);
    assert_eq!((n.embed_tokens.as_str(), n.layers.as_str()), ("model.embed_tokens", "model.layers"));
    assert_eq!((n.norm.as_str(), n.lm_head.as_str()), ("model.norm", "lm_head"));
    assert!(!n.tied && !n.no_decoder);
    assert_eq!(n.layer(&listing(false, &[]), 12).path(), "model.layers.12");
    let tied = ModelNames::new(&listing(false, &[]), Some("text."), Some(true), false);
    assert_eq!(tied.lm_head, "text.embed_tokens");
    let file = ModelNames::new(&listing(true, &[]), None, None, false);
    assert_eq!((file.embed_tokens.as_str(), file.layers.as_str()), ("token_embd", "blk"));
    assert_eq!((file.norm.as_str(), file.lm_head.as_str()), ("output_norm", "output"));
}

/// A checkpoint that lists its embedding without the prefix is no decoder.
#[test]
fn bare_names() {
    let bare = listing(false, &["embed_tokens.weight"]);
    let n = ModelNames::new(&bare, None, None, false);
    assert!(n.no_decoder && n.tied);
    assert_eq!((n.embed_tokens.as_str(), n.lm_head.as_str()), ("embed_tokens", "embed_tokens"));
    let both = listing(false, &["embed_tokens.weight", "model.embed_tokens.weight"]);
    assert!(!ModelNames::new(&both, None, None, false).no_decoder);
}

#[test]
fn models_of_a_checkpoint() {
    let m = model();
    assert_eq!(m.layers.len(), 4);
    match &m.layers[2].attn {
        Qwen3_5AttnType::LinearAttention(net) => {
            assert_eq!((net.gdn_layer_idx, net.dims.num_v_heads, net.norm_eps), (1, 8, EPS));
            assert_eq!(net.a_log.name, "model.layers.2.linear_attn.A_log");
        }
        Qwen3_5AttnType::FullAttention(_) => unreachable!(),
    }
    match &m.layers[3].attn {
        Qwen3_5AttnType::FullAttention(p) => {
            assert_eq!(p.path, "model.layers.3.self_attn");
            assert_eq!((p.num_heads, p.num_kv_heads, p.head_dim), (4, 2, 2));
            assert!(p.attn_output_gate && !p.attention_bias);
        }
        Qwen3_5AttnType::LinearAttention(_) => unreachable!(),
    }
    assert_eq!(m.layers[1].mlp.down_proj.path, "model.layers.1.mlp.down_proj");
    let theta = Some(10_000_000.0f64.to_bits());
    let rotary = RotaryPlan { dtype: Dtype::BF16, is_rope_i: true, theta };
    assert_eq!((m.rotary_emb, m.layers[1].rotary_emb), (rotary, Some(rotary)));
    assert!(m.layers[0].rotary_emb.is_none());
    assert_eq!((m.norm.add_one, m.norm.eps), (true, EPS));
    assert_eq!(
        m.embed_tokens,
        EmbeddingPlan::Dense { vocab: 100, hidden: 8, dtype: Dtype::BF16 }
    );
    assert_eq!(m.lm_head.inner.weight.shape, vec![100, 8]);
    assert_eq!(m.lm_head.inner.weight.shard, Shard { dim: 1, rank: 0, world_size: 1 });
    assert_eq!((m.full_attention_count(), m.gdn_layer_count()), (2, 2));
    assert_eq!((m.get_vocab_size(), m.dtype()), (100, Dtype::BF16));
}

fn refusal(config: &Config, world_size: usize) -> Option<LayerError> {
    let comm = Comm { world_size, rank: 0 };
    let vb = listing(false, &[]);
    Qwen3_5ForCausalLM::new_with_prefix(&vb, &comm, config, false, Dtype::BF16, false, Some("m."))
        .err()
}

/// The first layer that cannot be made refuses the model.
#[test]
fn models_that_do_not_divide() {
    let ranks = GdnError::HeadRanks { num_v_heads: 8, num_k_heads: 4, world_size: 3 };
    assert_eq!(refusal(&config(), 3), Some(LayerError::Linear(ranks)));
    let groups = Config {
        num_hidden_layers: 1,
        hybrid: HybridConfig { num_v_heads: 3, num_k_heads: 2, ..HYBRID },
        ..config()
    };
    assert_eq!(
        refusal(&groups, 1),
        Some(LayerError::Linear(GdnError::HeadGroups { num_v_heads: 3, num_k_heads: 2 }))
    );
    let kv = AttentionError::Heads(HeadShardError { num_kv_heads: 2, world_size: 4 });
    assert_eq!(refusal(&config(), 4), Some(LayerError::Full(kv)));
    let full_first = Config {
        layer_types: vec!["full_attention".to_string(), "linear_attention".to_string()],
        num_hidden_layers: 2,
        ..config()
    };
    let kv = AttentionError::Heads(HeadShardError { num_kv_heads: 2, world_size: 3 });
    assert_eq!(refusal(&full_first, 3), Some(LayerError::Full(kv)));
    // Without a linear layer the heads of linear attention still have to divide.
    let full_only = Config {
        layer_types: vec!["full_attention".to_string()],
        num_hidden_layers: 1,
        num_key_value_heads: 3,
        ..config()
    };
    assert_eq!(refusal(&full_only, 3), Some(LayerError::Linear(ranks)));
    assert_eq!(refusal(&config(), 1), None);
}

#[test]
fn a_layer_and_its_attention() {
    let comm = Comm { world_size: 1, rank: 0 };
    let rotary = RotaryPlan { dtype: Dtype::F32, is_rope_i: false, theta: None };
    let cfg = Config { sliding_window: Some(7), ..config() };
    let vb = listing(false, &[]).pp("l");
    let layer = |kind: &str, world_size: usize| {
        let comm = Comm { world_size, ..comm };
        Qwen3_5DecoderLayer::new(&vb, &comm, rotary, &cfg, kind, 3, false, Dtype::F16)
    };
    let full = layer("full_attention", 1).ok().unwrap();
    assert!(matches!(&full.attn, Qwen3_5AttnType::FullAttention(p) if p.sliding_window == Some(7)));
    assert_eq!(full.rotary_emb, Some(rotary));
    let linear = layer("linear_attention", 1).ok().unwrap();
    assert!(matches!(&linear.attn, Qwen3_5AttnType::LinearAttention(n) if n.gdn_layer_idx == 3));
    let kv = AttentionError::Heads(HeadShardError { num_kv_heads: 2, world_size: 4 });
    assert_eq!(layer("full_attention", 4).err(), Some(LayerError::Full(kv)));
    assert!(layer("linear_attention", 4).is_ok());
}

/// A layer adds twice: what attention gives, and what the feed forward part gives.
#[test]
fn steps_through_a_layer() {
    let m = model();
    let steps = m.layers[1].plan_forward();
    assert_eq!(
        steps,
        vec![
            BlockStep::InputNorm,
            BlockStep::FullAttention,
            BlockStep::AddInput,
            BlockStep::PostAttentionNorm,
            BlockStep::FeedForward,
            BlockStep::AddAttended
        ]
    );
    assert_eq!(m.layers[0].plan_forward()[1], BlockStep::LinearAttention);
    let (mut state, mut kept) = (7i64, 0i64);
    for step in steps {
        match step {
            BlockStep::InputNorm => (state, kept) = (state * 2, state),
            BlockStep::FullAttention | BlockStep::LinearAttention => state += 1,
            BlockStep::AddInput => state += kept,
            BlockStep::PostAttentionNorm => (state, kept) = (state * 3, state),
            BlockStep::FeedForward => state -= 5,
            BlockStep::AddAttended => state += kept,
        }
    }
    let attended = (7 * 2 + 1) + 7;
    assert_eq!(state, attended + (attended * 3 - 5));
}

fn metadata(is_prefill: bool, seqlens: Option<Vec<usize>>) -> InputMetadata {
    InputMetadata {
        seqlens,
        is_prefill,
        is_mtp_verify: false,
        mamba_slot_mapping: None,
        sequence_ids: None,
        decode_ptrs: Some(DecodePtrs { slots: 0x100, kv_lens: 0x200 }),
    }
}

#[test]
fn bounds_of_packed_sequences() {
    let m = metadata(true, Some(vec![2, 0, 3])).vendor();
    assert_eq!(m.cu_seqlens_q, Some(vec![0, 2, 2, 5]));
    assert_eq!((m.seqlens, m.context_lens.len()), (vec![2, 0, 3], 0));
    assert_eq!(m.decode_ptrs, Some(DecodePtrs { slots: 0x100, kv_lens: 0x200 }));
    assert!(metadata(false, Some(vec![2])).vendor().cu_seqlens_q.is_none());
    assert!(metadata(true, None).vendor().cu_seqlens_q.is_none());
}

#[test]
fn slots_by_mapping() {
    let mapped = |dtype: Dtype, len: usize, is_prefill: bool| InputMetadata {
        mamba_slot_mapping: Some(SlotMapping { dtype, len }),
        ..metadata(is_prefill, None)
    };
    assert_eq!(slot_source(&mapped(Dtype::I64, 3, false), 3), Ok(SlotSource::Mapping));
    assert_eq!(slot_source(&mapped(Dtype::I64, 3, true), 9), Ok(SlotSource::Mapping));
    assert_eq!(
        slot_source(&mapped(Dtype::I64, 3, false), 4),
        Err(SlotError::MappingMismatch { slots: 3, tokens: 4 })
    );
    assert_eq!(slot_source(&mapped(Dtype::I64, 0, true), 4), Err(SlotError::EmptyMapping));
    assert_eq!(
        slot_source(&mapped(Dtype::U32, 3, true), 4),
        Err(SlotError::MappingType { got: Dtype::U32 })
    );
}

#[test]
fn slots_by_sequence() {
    let ids = |ids: Option<Vec<usize>>| InputMetadata {
        sequence_ids: ids,
        ..metadata(true, None)
    };
    assert_eq!(slot_source(&ids(Some(vec![7])), 4), Ok(SlotSource::Sequences));
    assert_eq!(slot_source(&ids(Some(vec![])), 4), Err(SlotError::EmptySequenceIds));
    assert_eq!(slot_source(&ids(None), 4), Err(SlotError::NoSequenceIds));
    assert_eq!(resolve_seq_slots(true, &[5, 6], 9), Ok(vec![5, 6]));
    assert_eq!(resolve_seq_slots(false, &[5, 6], 2), Ok(vec![5, 6]));
    assert_eq!(
        resolve_seq_slots(false, &[5, 6], 3),
        Err(SlotError::SlotMismatch { slots: 2, tokens: 3 })
    );
    assert_eq!(resolve_seq_slots(true, &[], 3), Err(SlotError::NoSlots));
}

#[test]
fn forward_to_logits() {
    let m = model();
    let c = ForwardCall::new(ForwardKind::Logits, &[2, 5], true, false, 5, Some(2), false);
    let p = m.plan_forward(&c);
    let masks = p.masks.unwrap();
    assert_eq!((masks.len(), &masks[1]), (2, &causal_mask(3, None)));
    let caches: Vec<Option<usize>> = p.steps.iter().map(|s| s.cache).collect();
    assert_eq!(caches, vec![None, Some(0), None, Some(1)]);
    assert_eq!(p.select, Some(vec![1, 4]));
    assert!(!p.collect_input && !p.copy_to_mtp);
    assert_eq!(
        p.end,
        ForwardEnd::Logits(HeadTypes { before: Some(Dtype::BF16), after: Some(Dtype::F32) })
    );
}

#[test]
fn forward_to_hidden_states() {
    let m = model();
    let p = m.plan_forward(&ForwardCall::new(ForwardKind::Embedding, &[5], false, false, 5, None, false));
    assert!(p.select.is_none() && p.masks.is_none());
    assert!(p.steps.iter().all(|s| s.cache.is_none()));
    assert_eq!(p.end, ForwardEnd::Hidden);
    let c = ForwardCall::new(ForwardKind::WithHidden, &[5], false, false, 5, None, false);
    assert!(c.return_hidden && c.collect.is_none());
}

#[test]
fn forward_collecting_layers() {
    let m = model();
    let kind = ForwardKind::CollectingLayers(&[3, 9, 1]);
    let p = m.plan_forward(&ForwardCall::new(kind, &[5], false, false, 5, None, false));
    let collected: Vec<bool> = p.steps.iter().map(|s| s.collect).collect();
    assert_eq!(collected, vec![false, true, false, true]);
    assert!(p.collect_input && p.embeds);
    assert_eq!(p.select, Some(vec![4]));
    // States that come embedded are collected as they are.
    let kind = ForwardKind::CollectingLayers(&[0]);
    let p = m.plan_forward(&ForwardCall::new(kind, &[5], false, false, 5, None, true));
    assert!(p.collect_input && !p.embeds);
    assert!(p.steps[0].collect && !p.steps[1].collect);
}

#[test]
fn forward_with_visual_embeddings() {
    let m = model();
    let kind = ForwardKind::WithDeepstack(Some(2));
    let p = m.plan_forward(&ForwardCall::new(kind, &[], false, false, 5, None, false));
    let stacked: Vec<bool> = p.steps.iter().map(|s| s.deepstack).collect();
    assert_eq!(stacked, vec![true, true, false, false]);
    assert!(p.select.is_none());
}

#[test]
fn verify_buffers() {
    let mut m = model();
    assert!(m.take_dflash_verify_hiddens(1).is_none());
    let b = m.preallocate_dflash_verify_buffers(&[3, 1, 3], 4);
    assert_eq!((b.rows, b.cols, b.dtype), (4, 8, Dtype::BF16));
    assert_eq!(m.copy_into_verify_buffer(3, 4), vec![0, 2]);
    assert!(m.copy_into_verify_buffer(3, 5).is_empty());
    let c = ForwardCall::new(ForwardKind::Logits, &[], true, true, 4, None, false);
    let p = m.plan_forward(&c);
    assert_eq!(p.steps[1].verify_buffers, vec![1]);
    assert!(p.steps[0].verify_buffers.is_empty());
    let parts = m.take_dflash_verify_hiddens(3).unwrap();
    assert_eq!(parts, vec![Slice { start: 0, len: 3 }; 3]);
    assert!(m.take_dflash_verify_hiddens(5).is_none());
    assert!(m.take_dflash_verify_hiddens(0).is_none());
}

#[test]
fn the_last_hidden_state() {
    let mut m = model();
    assert!(m.take_last_hidden_for_mtp().is_none());
    let b = m.preallocate_mtp_hidden_buffer(2);
    assert_eq!((b.rows, b.cols, b.dtype), (2, 8, Dtype::BF16));
    assert_eq!(m.take_last_hidden_for_mtp(), Some(Slice { start: 0, len: 1 }));
    let two = ForwardCall::new(ForwardKind::Logits, &[1, 2], false, false, 2, None, false);
    assert!(m.plan_forward(&two).copy_to_mtp);
    let three = ForwardCall::new(ForwardKind::Logits, &[1, 2, 3], false, false, 3, None, false);
    assert!(!m.plan_forward(&three).copy_to_mtp);
}

#[test]
fn the_model_rolls_back() {
    let m = model_of(&Config { mtp_enabled: true, mtp_max_verify_tokens: 20, ..config() });
    for keep in 1..=20usize {
        let p = m.mtp_rollback_mamba(keep, Dtype::BF16);
        let done: Vec<(usize, usize)> =
            p.rollbacks.iter().map(|r| (r.layer, r.rollback.index)).collect();
        assert_eq!((done, p.stop), (vec![(0, keep - 1), (2, keep - 1)], None));
    }
    assert!(m.mtp_rollback_mamba(0, Dtype::F32).rollbacks.is_empty());
    let late = m.mtp_rollback_mamba_at(2, 19, Dtype::F32);
    assert!(late.rollbacks.is_empty());
    assert_eq!(
        late.stop,
        Some(GdnError::SnapshotRange { index: 20, len: 20, offset: 19, keep: 2 })
    );
    assert_eq!(
        model().mtp_rollback_mamba(1, Dtype::F32).stop,
        Some(GdnError::MissingConvSnapshot { layer: 0 })
    );
}

#[test]
fn states_and_types() {
    let m = model();
    assert_eq!(m.embed_forward(Dtype::BF16), None);
    assert_eq!(m.forward_lm_head().after, Some(Dtype::F32));
    let t = m.preallocate_mamba_cache(16).unwrap();
    assert_eq!((t.num_gdn_layers, t.max_num_seqs, t.d_conv, t.conv_len), (2, 16, 384, 3));
    let full = Config {
        layer_types: vec!["full_attention".to_string()],
        num_hidden_layers: 1,
        ..config()
    };
    assert!(model_of(&full).preallocate_mamba_cache(16).is_none());
}
