//! Attention layers.

use owl::config::Config;
use owl::dtype::Dtype;
use owl::models::layers::attention::{
    cache_row_offset, fp8_blocks_align, fp8_scale_shape, fp8_weight_scale, load_sharded_bias,
    naive_name, normalize_sharded_1d, normalize_sharded_2d, packed_bias, packed_route,
    plan_attention, plan_prefill, qk_norm_of, query_chunks, Attention, AttentionCall,
    AttentionError, AttentionLoad, AttentionLoader, AttentionPlan, AttentionStep, BiasPlan,
    CachePath, ChunkStep, Fp8Found, Fp8Weight, GateSplit, HeadStep, KeyMatrix, NaiveAttention,
    NaiveStep, PackedBias, PackedParts, PackedRoute, PagedAttention, PrefillPlan, QkNorm, QkvPart,
    RotaryScaling, ScaleName, HEAD_EPS,
};
use owl::models::layers::deltanet::HybridConfig;
use owl::models::layers::distributed::{Comm, HeadShardError};
use owl::models::layers::linear::Slice;
use owl::models::layers::mlp::Activation;
use owl::models::layers::others::NormKind;
use owl::models::layers::tensor::{GgmlDType, Shard};
use owl::models::layers::var_builder::{TensorEntry, VarBuilderX};
use std::sync::Arc;

fn dense(path: &str) -> VarBuilderX {
    VarBuilderX { path: path.to_string(), is_gguf: false, gguf: None, has_pool: false }
}

/// The bits of one millionth.
const EPS: u64 = 0x3eb0_c6f7_a0b5_ed8d;

const HYBRID: HybridConfig = HybridConfig {
    num_v_heads: 8,
    num_k_heads: 4,
    key_head_dim: 16,
    value_head_dim: 32,
    conv_kernel_size: 4,
};

fn config(architecture: &str) -> Config {
    Config {
        architecture: architecture.to_string(),
        vocab_size: Some(100),
        hidden_size: 64,
        intermediate_size: 16,
        num_hidden_layers: 4,
        num_attention_heads: 8,
        num_key_value_heads: 4,
        head_dim: None,
        hidden_act: Activation::Silu,
        rms_norm_eps: EPS,
        rope_theta: Some(10_000_000.0f64.to_bits()),
        tie_word_embeddings: None,
        qkv_bias: None,
        attention_bias: None,
        attn_output_gate: None,
        output_gate_type: None,
        sliding_window: None,
        quant_method: None,
        is_mlx_nvfp4: false,
        sym: None,
        quantizes_on_load: false,
        is_f16_mode: false,
        higher_precision_required: false,
        mtp_enabled: false,
        mtp_max_verify_tokens: 0,
        layer_types: Vec::new(),
        hybrid: HYBRID,
    }
}

fn module(path: &str, is_gguf: bool) -> VarBuilderX {
    VarBuilderX { path: path.to_string(), is_gguf, gguf: None, has_pool: false }
}

fn plan(c: &Config, world_size: usize, qvar: bool) -> AttentionPlan {
    let comm = Comm { world_size, rank: 1 };
    plan_attention(&module("a", qvar), &comm, c, Some(9), false, false, Dtype::BF16).ok().unwrap()
}

#[test]
fn plain_settings() {
    let p = plan(&config("LlamaForCausalLM"), 2, false);
    assert_eq!((p.head_dim, p.q_out_dim, p.kv_out_dim, p.o_in_dim), (8, 64, 32, 64));
    assert_eq!((p.num_heads, p.num_kv_heads), (4, 2));
    assert!(p.attention_bias && !p.attn_output_gate && !p.qk_norm_add_one);
    assert_eq!((p.path.as_str(), p.sliding_window, p.v_norm_eps), ("a", Some(9), None));
    assert_eq!((p.norm_eps, p.dtype), (EPS, Dtype::BF16));
    assert_eq!(p.norm_dtype, Dtype::BF16);
    assert_eq!((p.names.q, p.names.v, p.names.o), ("q_proj", "v_proj", "o_proj"));
}

#[test]
fn hybrid_settings() {
    let p = plan(&config("Qwen3NextForCausalLM"), 2, false);
    assert!(!p.attention_bias && p.attn_output_gate && p.qk_norm_add_one);
    assert_eq!(p.q_out_dim, 128);
    let file = plan(&config("Qwen3NextForCausalLM"), 2, true);
    assert!(!file.qk_norm_add_one && file.promote_qk_to_f32);
    assert_eq!((file.names.q, file.norm_dtype), ("attn_q", Dtype::F32));
    let given = Config {
        attention_bias: Some(true),
        attn_output_gate: Some(false),
        head_dim: Some(16),
        ..config("Qwen3NextForCausalLM")
    };
    let p = plan(&given, 2, false);
    assert!(p.attention_bias && !p.attn_output_gate);
    assert_eq!((p.head_dim, p.q_out_dim), (16, 128));
}

#[test]
fn gemma_settings() {
    assert!(plan(&config("Gemma3ForCausalLM"), 1, true).qk_norm_add_one);
    assert_eq!(plan(&config("Gemma4ForCausalLM"), 1, false).v_norm_eps, Some(EPS));
}

#[test]
fn equal_keys_and_values() {
    let comm = Comm { world_size: 1, rank: 0 };
    let vb = module("a", false);
    let p = plan_attention(&vb, &comm, &config("x"), None, true, true, Dtype::F16).ok().unwrap();
    assert_eq!(p.names.v, "k_proj");
    assert!(p.promote_qk_to_f32);
    let odd = Comm { world_size: 3, rank: 0 };
    assert_eq!(
        plan_attention(&vb, &odd, &config("x"), None, false, false, Dtype::F16).err(),
        Some(AttentionError::Heads(HeadShardError { num_kv_heads: 4, world_size: 3 }))
    );
}

#[test]
fn separate_projections() {
    let p = plan(&config("x"), 2, false);
    let comm = Comm { world_size: 2, rank: 1 };
    let s = p.separate(&dense("attn"), &comm, 64, None, false, Dtype::BF16);
    assert_eq!(s.q.path, "attn.q_proj");
    assert_eq!(s.q.inner.weight.shape, vec![64, 64]);
    assert_eq!(s.k.inner.weight.shape, vec![32, 64]);
    assert_eq!(s.o.inner.weight.shard, Shard { dim: 1, rank: 1, world_size: 2 });
    let n = p.qk_norms(&dense("attn"), false);
    assert_eq!((n.q_path.as_str(), n.q.size, n.k.size), ("attn.q_norm", 8, 8));
    assert_eq!((n.q.kind, n.q.eps), (NormKind::Rms, EPS));
    let full = p.qk_norms(&dense("attn"), true);
    assert_eq!((full.q.size, full.k.size, full.q.shard.rank), (64, 32, 1));
}

#[test]
fn norms_come_in_pairs() {
    assert_eq!(qk_norm_of((true, true), (false, false)), QkNorm::PerHead);
    assert_eq!(qk_norm_of((true, false), (true, true)), QkNorm::FullDim);
    assert_eq!(qk_norm_of((true, false), (false, true)), QkNorm::Absent);
}

#[test]
fn packed_routes() {
    let pair = vec![128, 64];
    let three = vec![1, 2, 3];
    assert_eq!(packed_route(true, false, None, None), Ok(PackedRoute::Separate));
    assert_eq!(packed_route(false, false, None, None), Ok(PackedRoute::Dense));
    assert_eq!(packed_route(false, false, Some("gptq"), None), Ok(PackedRoute::Separate));
    assert_eq!(
        packed_route(false, false, Some("fp8"), Some(&pair)),
        Ok(PackedRoute::Fp8 { by: 128, bx: 64 })
    );
    assert_eq!(packed_route(false, false, Some("fp8"), None), Err(AttentionError::NoBlockSize));
    assert_eq!(
        packed_route(false, false, Some("fp8"), Some(&three)),
        Err(AttentionError::BlockSizePair)
    );
}

#[test]
fn block_scales() {
    assert_eq!(fp8_scale_shape(256, 129, 128, 64), (2, 3));
    assert!(fp8_blocks_align(256, 128, 1, 1, 128, 128, 128, 128));
    assert!(!fp8_blocks_align(256, 128, 1, 1, 128, 64, 64, 128));
    let listed = VarBuilderX {
        path: "q".to_string(),
        is_gguf: false,
        gguf: Some(Arc::new(vec![TensorEntry {
            name: "q.weight_scale_inv".to_string(),
            shape: vec![1],
            dtype: GgmlDType::F32,
        }])),
        has_pool: true,
    };
    let rows = Shard { dim: 0, rank: 1, world_size: 2 };
    let all = Fp8Found {
        weight: Some((256, 129)),
        weight_scale: Some((1, 3)),
        weight_scale_inv: Some((2, 3)),
    };
    let load = |found: &Fp8Found| fp8_weight_scale(&listed, found, (256, 129), (128, 64), rows);
    let weight = Fp8Weight {
        cut: Some(Slice { start: 128, len: 128 }),
        rows: 128,
        scale: ScaleName::WeightScale,
        scale_cut: None,
    };
    assert_eq!(load(&all), Ok(Some(weight)));
    let inverse = Fp8Weight {
        scale: ScaleName::WeightScaleInv,
        scale_cut: Some(Slice { start: 1, len: 1 }),
        ..weight
    };
    assert_eq!(load(&Fp8Found { weight_scale: None, ..all }), Ok(Some(inverse)));
    let part = Fp8Found { weight: Some((128, 129)), ..all };
    assert_eq!(load(&part), Ok(Some(Fp8Weight { cut: None, ..weight })));
    assert_eq!(load(&Fp8Found { weight: None, ..all }), Ok(None));
    let bare = Fp8Found { weight_scale: None, weight_scale_inv: None, ..all };
    assert_eq!(load(&bare), Ok(None));
    let odd = Fp8Found { weight: Some((100, 129)), weight_scale: Some((9, 3)), ..all };
    assert_eq!(
        load(&odd),
        Err(AttentionError::ShardShape { got: 100, local: 128, global: 256 })
    );
    let odd_scale = Fp8Found { weight_scale: Some((9, 3)), ..all };
    assert_eq!(
        load(&odd_scale),
        Err(AttentionError::ShardShape { got: 9, local: 1, global: 2 })
    );
    assert_eq!(
        fp8_weight_scale(&dense("q"), &all, (256, 129), (128, 64), rows),
        Ok(None)
    );
}

#[test]
fn packed_projections() {
    assert_eq!(packed_bias(false, true, false, true), PackedBias::Without);
    assert_eq!(packed_bias(true, true, true, true), PackedBias::With);
    assert_eq!(packed_bias(true, false, false, false), PackedBias::Without);
    assert_eq!(packed_bias(true, true, false, true), PackedBias::NotPacked);
    let p = plan(&config("x"), 2, false);
    let packed = p.packed_qkv(PackedRoute::Dense, &PARTS).unwrap().unwrap();
    assert_eq!((packed.splits, packed.with_bias), (vec![32, 16, 16], true));
    assert!(matches!(p.packed_qkv(PackedRoute::Separate, &PARTS), Ok(None)));
    assert!(matches!(p.packed_qkv(PackedRoute::Fp8 { by: 16, bx: 16 }, &PARTS), Ok(Some(_))));
    assert!(matches!(p.packed_qkv(PackedRoute::Fp8 { by: 32, bx: 16 }, &PARTS), Ok(None)));
    let mixed = PackedParts { k_bias: false, ..PARTS };
    assert!(matches!(p.packed_qkv(PackedRoute::Dense, &mixed), Ok(None)));
}

/// Without a weight in blocks three projections are loaded; an unquantized one has to
/// be there.
#[test]
fn missing_weights() {
    let p = plan(&config("x"), 2, false);
    let no_k = PackedParts { k: None, ..PARTS };
    let no_kv = PackedParts { k: None, v: None, ..PARTS };
    assert!(matches!(p.packed_qkv(PackedRoute::Fp8 { by: 16, bx: 16 }, &no_k), Ok(None)));
    assert!(matches!(p.packed_qkv(PackedRoute::Separate, &no_k), Ok(None)));
    for parts in [no_k, no_kv] {
        assert_eq!(
            p.packed_qkv(PackedRoute::Dense, &parts).err(),
            Some(AttentionError::NoWeight { part: QkvPart::K })
        );
    }
    let no_q = PackedParts { q: None, ..PARTS };
    let no_v = PackedParts { v: None, ..PARTS };
    let part = |parts| p.packed_qkv(PackedRoute::Dense, &parts).err();
    assert_eq!(part(no_q), Some(AttentionError::NoWeight { part: QkvPart::Q }));
    assert_eq!(part(no_v), Some(AttentionError::NoWeight { part: QkvPart::V }));
}

const PARTS: PackedParts = PackedParts {
    q: Some(32),
    k: Some(16),
    v: Some(16),
    q_bias: true,
    k_bias: true,
    v_bias: true,
};

/// Loads a layer from what there is: the steps that are made, and the layer.
fn load(
    p: &AttentionPlan,
    route: PackedRoute,
    parts: &PackedParts,
    per_head: (bool, bool),
    full: (bool, bool),
) -> (Vec<AttentionLoad>, Option<Attention>) {
    let mut loader = AttentionLoader::new(p, route);
    let mut steps = Vec::new();
    loop {
        steps.push(loader.step);
        match loader.step {
            AttentionLoad::Weight(QkvPart::Q) => loader.weight_loaded(parts.q),
            AttentionLoad::Weight(QkvPart::K) => loader.weight_loaded(parts.k),
            AttentionLoad::Weight(QkvPart::V) => loader.weight_loaded(parts.v),
            AttentionLoad::Bias(QkvPart::Q) => loader.bias_loaded(parts.q_bias),
            AttentionLoad::Bias(QkvPart::K) => loader.bias_loaded(parts.k_bias),
            AttentionLoad::Bias(QkvPart::V) => loader.bias_loaded(parts.v_bias),
            AttentionLoad::Pack => {
                assert_eq!(loader.packed.as_ref().unwrap().splits, vec![32, 16, 16]);
                loader.qkv_loaded();
            }
            AttentionLoad::Separate => {
                assert!(loader.packed.is_none());
                loader.qkv_loaded();
            }
            AttentionLoad::Output => loader.output_loaded(),
            AttentionLoad::HeadNorms => loader.head_norms_loaded(per_head.0, per_head.1),
            AttentionLoad::FullNorms => loader.full_norms_loaded(full.0, full.1),
            AttentionLoad::Done => return (steps, Some(loader.attention())),
            AttentionLoad::Failed => return (steps, None),
        }
    }
}

#[test]
fn packed_layers_load_in_order() {
    let p = plan(&config("x"), 2, false);
    let (steps, a) = load(&p, PackedRoute::Dense, &PARTS, (true, true), (true, true));
    assert_eq!(
        steps,
        vec![
            AttentionLoad::Weight(QkvPart::Q),
            AttentionLoad::Weight(QkvPart::K),
            AttentionLoad::Weight(QkvPart::V),
            AttentionLoad::Bias(QkvPart::Q),
            AttentionLoad::Bias(QkvPart::K),
            AttentionLoad::Bias(QkvPart::V),
            AttentionLoad::Pack,
            AttentionLoad::Output,
            AttentionLoad::HeadNorms,
            AttentionLoad::Done
        ]
    );
    let a = a.unwrap();
    assert!(a.packed);
    assert_eq!((a.qk_norm, a.num_heads, a.num_kv_heads), (QkNorm::PerHead, 4, 2));
    assert_eq!(a.attn, PagedAttention::new(4, 8, Some(2)));
    // Without biases none is looked for.
    let bare = plan(&Config { qkv_bias: Some(false), ..config("x") }, 2, false);
    let (steps, a) = load(&bare, PackedRoute::Dense, &PARTS, (true, true), (true, true));
    assert_eq!(steps[3], AttentionLoad::Pack);
    assert!(a.unwrap().packed);
}

#[test]
fn layers_load_separately() {
    let p = plan(&config("x"), 2, false);
    let fp8 = PackedRoute::Fp8 { by: 16, bx: 16 };
    let (steps, a) = load(&p, PackedRoute::Separate, &PARTS, (false, true), (true, true));
    assert_eq!(
        steps,
        vec![
            AttentionLoad::Separate,
            AttentionLoad::Output,
            AttentionLoad::HeadNorms,
            AttentionLoad::FullNorms,
            AttentionLoad::Done
        ]
    );
    let a = a.unwrap();
    assert_eq!((a.packed, a.qk_norm), (false, QkNorm::FullDim));
    // A missing weight in blocks: the next ones are not looked for.
    let (steps, a) =
        load(&p, fp8, &PackedParts { k: None, ..PARTS }, (true, true), (false, false));
    assert_eq!(
        steps[..3],
        [
            AttentionLoad::Weight(QkvPart::Q),
            AttentionLoad::Weight(QkvPart::K),
            AttentionLoad::Separate
        ]
    );
    assert!(!a.unwrap().packed);
    // Torn blocks: no bias is looked for.
    let torn = PackedRoute::Fp8 { by: 32, bx: 16 };
    let (steps, _) = load(&p, torn, &PARTS, (true, true), (false, false));
    assert_eq!(steps[3], AttentionLoad::Separate);
    // Mixed biases.
    let mixed = PackedParts { v_bias: false, ..PARTS };
    let (steps, a) = load(&p, fp8, &mixed, (false, false), (true, false));
    assert_eq!(steps[6], AttentionLoad::Separate);
    assert_eq!(a.unwrap().qk_norm, QkNorm::Absent);
}

#[test]
fn unquantized_weights_have_to_be_there() {
    let p = plan(&config("x"), 2, false);
    let no_v = PackedParts { v: None, ..PARTS };
    let (steps, a) = load(&p, PackedRoute::Dense, &no_v, (true, true), (true, true));
    assert_eq!(steps[2..], [AttentionLoad::Weight(QkvPart::V), AttentionLoad::Failed]);
    assert!(a.is_none());
    let mut loader = AttentionLoader::new(&p, PackedRoute::Separate);
    loader.failed();
    assert_eq!(loader.step, AttentionLoad::Failed);
}

#[test]
fn loaded_tensors_are_cut() {
    let rows = Shard { dim: 0, rank: 1, world_size: 2 };
    let cols = Shard { dim: 1, rank: 1, world_size: 2 };
    assert_eq!(normalize_sharded_2d((8, 6), (16, 6), rows), Ok(None));
    assert_eq!(normalize_sharded_2d((16, 6), (16, 6), rows), Ok(Some(Slice { start: 8, len: 8 })));
    assert_eq!(normalize_sharded_2d((16, 6), (16, 6), cols), Ok(Some(Slice { start: 3, len: 3 })));
    assert_eq!(
        normalize_sharded_2d((5, 6), (16, 6), rows),
        Err(AttentionError::ShardShape { got: 5, local: 8, global: 16 })
    );
    let third = Shard { dim: 2, rank: 1, world_size: 2 };
    assert_eq!(
        normalize_sharded_2d((16, 6), (16, 6), third),
        Err(AttentionError::ShardDim { dim: 2 })
    );
    let single = Shard { dim: 2, rank: 0, world_size: 1 };
    assert_eq!(normalize_sharded_2d((5, 6), (16, 6), single), Ok(None));
    assert_eq!(normalize_sharded_1d(16, 16, rows), Ok(Some(Slice { start: 8, len: 8 })));
}

#[test]
fn loaded_biases() {
    let rows = Shard { dim: 0, rank: 1, world_size: 2 };
    assert_eq!(
        load_sharded_bias(false, Some((16, Dtype::F32)), 16, rows, Dtype::BF16),
        Ok(Some(BiasPlan {
            cut: Some(Slice { start: 8, len: 8 }),
            convert: Some(Dtype::BF16)
        }))
    );
    assert_eq!(load_sharded_bias(true, Some((16, Dtype::F32)), 16, rows, Dtype::BF16), Ok(None));
    assert_eq!(load_sharded_bias(false, None, 16, rows, Dtype::BF16), Ok(None));
    assert_eq!(
        load_sharded_bias(false, Some((7, Dtype::F32)), 16, rows, Dtype::BF16),
        Err(AttentionError::ShardShape { got: 7, local: 8, global: 16 })
    );
}

fn call(outputs: usize, q_dim: usize) -> AttentionCall {
    AttentionCall {
        tokens: 5,
        outputs,
        q_dim,
        xs_type: Dtype::BF16,
        rotary: Some(RotaryScaling { original_max_position: true, scaling_beta: false }),
        q_scale: true,
    }
}

fn gated() -> Attention {
    let comm = Comm { world_size: 2, rank: 1 };
    let c = Config { qkv_bias: Some(false), ..config("Qwen3NextForCausalLM") };
    let p = plan_attention(&module("a", false), &comm, &c, None, false, true, Dtype::BF16)
        .ok()
        .unwrap();
    load(&p, PackedRoute::Dense, &PARTS, (true, true), (false, false)).1.unwrap()
}

fn plain() -> Attention {
    let p = plan(&config("x"), 2, true);
    load(&p, PackedRoute::Separate, &PARTS, (false, false), (true, true)).1.unwrap()
}

const SPLIT: GateSplit = GateSplit {
    shape: (5, 4, 16),
    query: Slice { start: 0, len: 8 },
    gate: Slice { start: 8, len: 8 },
    flat: (5, 32),
};

fn norm(q_rows: (usize, usize), k_rows: (usize, usize), tokens: usize) -> AttentionStep {
    AttentionStep::NormQk { q_rows, k_rows, q: (tokens, 4, 8), kv: (tokens, 2, 8) }
}

#[test]
fn gated_forward_passes() {
    let a = gated();
    assert_eq!(
        a.forward_ext(&call(3, 64)).unwrap(),
        vec![
            AttentionStep::CutGate(SPLIT),
            AttentionStep::Shape { q: (5, 4, 8), kv: (5, 2, 8) },
            AttentionStep::PromoteQk,
            norm((20, 8), (10, 8), 5),
            AttentionStep::Rotate,
            AttentionStep::UnitQk { eps: 1e-5f64.to_bits() },
            AttentionStep::ConvertQk(Dtype::BF16),
            AttentionStep::ConvertV(Dtype::BF16),
            AttentionStep::ScaleGiven((5, 1, 1)),
            AttentionStep::Attend,
            AttentionStep::Flatten((5, 32)),
            AttentionStep::ConvertGate,
            AttentionStep::MultiplyGate,
            AttentionStep::ConvertOutput(Dtype::BF16),
            AttentionStep::ProjectOutput
        ]
    );
    assert_eq!(
        a.forward_ext(&call(2, 64)).err(),
        Some(AttentionError::PackedOutputs { got: 2 })
    );
    assert_eq!(
        a.forward_ext(&call(3, 32)).err(),
        Some(AttentionError::GatedDim { expected: 64, got: 32 })
    );
    assert_eq!(HEAD_EPS, 1e-5f64.to_bits());
}

#[test]
fn plain_forward_passes() {
    let a = plain();
    let c = AttentionCall { rotary: None, ..call(0, 32) };
    assert!(a.forward_ext(&c).unwrap().contains(&AttentionStep::ScaleGiven((5, 1, 1))));
    assert_eq!(
        a.forward(&c).unwrap(),
        vec![
            AttentionStep::Shape { q: (5, 4, 8), kv: (5, 2, 8) },
            AttentionStep::PromoteQk,
            norm((5, 32), (5, 16), 5),
            AttentionStep::ConvertQk(Dtype::BF16),
            AttentionStep::ConvertV(Dtype::BF16),
            AttentionStep::Attend,
            AttentionStep::Flatten((5, 32)),
            AttentionStep::ProjectOutput
        ]
    );
}

/// Values are normalized before queries are scaled, first by position.
#[test]
fn normed_values_and_scales() {
    let p = plan(&config("Gemma4ForCausalLM"), 2, false);
    let a = load(&p, PackedRoute::Dense, &PARTS, (false, false), (false, false)).1.unwrap();
    let rotary = Some(RotaryScaling { original_max_position: true, scaling_beta: true });
    let steps = a.forward_ext(&AttentionCall { rotary, ..call(3, 32) }).unwrap();
    assert_eq!(
        steps[..8],
        [
            AttentionStep::Shape { q: (5, 4, 8), kv: (5, 2, 8) },
            AttentionStep::Rotate,
            AttentionStep::ConvertQk(Dtype::BF16),
            AttentionStep::ConvertV(Dtype::BF16),
            AttentionStep::UnitV { eps: EPS },
            AttentionStep::ScaleByPosition((5, 1, 1)),
            AttentionStep::ScaleGiven((5, 1, 1)),
            AttentionStep::Attend
        ]
    );
}

#[test]
fn steps_convert_what_differs() {
    let (f16, bf16, f32) = (Dtype::F16, Dtype::BF16, Dtype::F32);
    assert_eq!(AttentionStep::PromoteQk.convert(bf16, f16), Some(f32));
    assert_eq!(AttentionStep::PromoteQk.convert(f32, f16), None);
    assert_eq!(AttentionStep::ConvertQk(bf16).convert(f32, f16), Some(bf16));
    assert_eq!(AttentionStep::ConvertV(bf16).convert(bf16, f16), None);
    assert_eq!(AttentionStep::ConvertGate.convert(f32, f16), Some(f16));
    assert_eq!(AttentionStep::ConvertGate.convert(f16, f16), None);
    assert_eq!(AttentionStep::ConvertOutput(f16).convert(f16, f16), Some(f16));
    assert_eq!(AttentionStep::Rotate.convert(f16, bf16), None);
}

/// A token that attends to itself alone gets the values of its group.
#[test]
fn single_tokens_take_their_values() {
    assert_eq!(
        gated().forward_single_token_no_cache(5, Dtype::F16),
        vec![
            AttentionStep::CutGate(SPLIT),
            AttentionStep::Shape { q: (5, 4, 8), kv: (5, 2, 8) },
            AttentionStep::PromoteQk,
            norm((20, 8), (10, 8), 5),
            AttentionStep::Rotate,
            AttentionStep::RepeatValues((5, 2, 2, 8)),
            AttentionStep::TakeValues,
            AttentionStep::Flatten((5, 32)),
            AttentionStep::ConvertGate,
            AttentionStep::MultiplyGate,
            AttentionStep::ConvertOutput(Dtype::F16),
            AttentionStep::ProjectOutput
        ]
    );
    let single = Attention { num_kv_heads: 4, ..plain() };
    assert_eq!(
        single.forward_single_token_no_cache(1, Dtype::F16)[2..],
        [
            AttentionStep::NormQk {
                q_rows: (1, 32),
                k_rows: (1, 32),
                q: (1, 4, 8),
                kv: (1, 4, 8)
            },
            AttentionStep::Rotate,
            AttentionStep::TakeValues,
            AttentionStep::Flatten((1, 32)),
            AttentionStep::ProjectOutput
        ]
    );
}

#[test]
fn cache_paths() {
    let p = PagedAttention::new(8, 64, None);
    assert_eq!(p.num_kv_heads, 8);
    assert_eq!(p.path(true, true, true, false), Ok(CachePath::Decode));
    assert_eq!(p.path(false, true, true, true), Ok(CachePath::PrefillEager));
    assert_eq!(p.path(false, true, true, false), Err(AttentionError::NoCachePath));
    assert_eq!(p.path(true, true, false, true), Err(AttentionError::NoCachePath));
}

fn tokens(p: &PrefillPlan) -> Vec<Slice> {
    p.seqs.iter().map(|s| s.tokens).collect()
}

#[test]
fn prefills() {
    let p = plan_prefill(5, 4, 2, 8, &[2, 3], None);
    assert_eq!((p.group, p.row, p.stop), (2, 16, None));
    assert_eq!(tokens(&p), vec![Slice { start: 0, len: 2 }, Slice { start: 2, len: 3 }]);
    assert_eq!(p.kv_heads, vec![0, 0, 1, 1]);
    assert!(p.seqs.iter().all(|s| s.mask.is_none()));
    assert!(!p.head_steps.contains(&HeadStep::AddMask));
    let one = plan_prefill(5, 4, 2, 8, &[], None);
    assert_eq!((tokens(&one), one.stop), (vec![Slice { start: 0, len: 5 }], None));
    assert_eq!(cache_row_offset(3, 16), 192);
}

/// Every sequence takes its own mask.
#[test]
fn masked_prefills() {
    let p = plan_prefill(6, 4, 2, 8, &[2, 3, 1], Some(3));
    let masks: Vec<Option<usize>> = p.seqs.iter().map(|s| s.mask).collect();
    assert_eq!(masks, vec![Some(0), Some(1), Some(2)]);
    assert_eq!(
        p.head_steps,
        vec![
            HeadStep::TimesKeys,
            HeadStep::Scale,
            HeadStep::AddMask,
            HeadStep::Softmax,
            HeadStep::TimesValues
        ]
    );
}

/// The product of queries with the key matrix pairs every query with every key.
#[test]
fn columns_are_keys() {
    let p = plan_prefill(3, 1, 1, 2, &[], None);
    let m = p.seqs[0].keys;
    assert_eq!(m, KeyMatrix { rows: 2, cols: 3, row_step: 1, col_step: 2 });
    let keys = [1, 2, 10, 20, 100, 200];
    let query = [3, 4];
    let scores: Vec<i32> = (0..m.cols)
        .map(|j| (0..m.rows).map(|x| query[x] * keys[x * m.row_step + j * m.col_step]).sum())
        .collect();
    assert_eq!(scores, vec![11, 110, 1100]);
}

/// What goes before an error is done.
#[test]
fn stopped_prefills() {
    let late = plan_prefill(5, 4, 2, 8, &[2, 4], Some(1));
    assert_eq!(tokens(&late), vec![Slice { start: 0, len: 2 }]);
    assert_eq!(late.stop, Some(AttentionError::TokenRange { seq: 1 }));
    let early = plan_prefill(5, 4, 2, 8, &[6], Some(0));
    assert!(early.seqs.is_empty());
    assert_eq!(early.stop, Some(AttentionError::TokenRange { seq: 0 }));
    // Five query heads over three KV heads: groups of one, and too few rows.
    let heads = plan_prefill(5, 5, 3, 8, &[2, 3], None);
    assert_eq!(heads.kv_heads, vec![0, 1, 2]);
    assert_eq!(tokens(&heads), vec![Slice { start: 0, len: 2 }]);
    assert_eq!(heads.stop, Some(AttentionError::KvHeadRange { head: 3 }));
}

/// Repeated value heads stand where their group of query heads is.
#[test]
fn value_heads_follow_groups() {
    let p = plan_prefill(1, 6, 3, 8, &[], None);
    for (h, kv) in p.kv_heads.iter().enumerate() {
        assert_eq!(*kv, h / p.group);
    }
}

#[test]
fn chunks_tile_the_queries() {
    assert!(query_chunks(0).is_empty());
    assert_eq!(query_chunks(1024), vec![Slice { start: 0, len: 1024 }]);
    assert_eq!(
        query_chunks(2500),
        vec![
            Slice { start: 0, len: 1024 },
            Slice { start: 1024, len: 1024 },
            Slice { start: 2048, len: 452 }
        ]
    );
}

#[test]
fn plain_attention() {
    let a = NaiveAttention::new(&dense("a"), 4, 32, 8, None, Dtype::F32, Some("out_proj"));
    assert_eq!((a.q_proj.path.as_str(), a.o_proj.path.as_str()), ("a.q_proj", "a.out_proj"));
    assert_eq!(
        a.forward(1, 1025, true),
        vec![
            NaiveStep::Project,
            NaiveStep::ShapeQk((1025, 4, 8)),
            NaiveStep::ShapeV((1, 1025, 4, 8)),
            NaiveStep::Rotate,
            NaiveStep::SwapQk((1, 1025, 4, 8)),
            NaiveStep::Chunk(Slice { start: 0, len: 1024 }),
            NaiveStep::Chunk(Slice { start: 1024, len: 1 }),
            NaiveStep::JoinChunks,
            NaiveStep::SwapOutput,
            NaiveStep::Flatten((1, 1025, 32)),
            NaiveStep::ProjectOutput
        ]
    );
    let still = a.forward(2, 7, false);
    assert!(!still.contains(&NaiveStep::Rotate));
    assert_eq!(still[4], NaiveStep::Chunk(Slice { start: 0, len: 7 }));
    assert_eq!((naive_name("o_proj", true), naive_name("o_proj", false)), ("attn_output", "o_proj"));
    assert_eq!(naive_name("other", true), "other");
}

#[test]
fn chunks_of_queries() {
    let queries = Slice { start: 1024, len: 1 };
    let cap = 50.0f64.to_bits();
    let a = NaiveAttention::new(&dense("a"), 4, 32, 8, Some(cap), Dtype::F32, None);
    assert_eq!(
        a.chunk(queries, true),
        vec![
            ChunkStep::TimesKeys(queries),
            ChunkStep::Scale,
            ChunkStep::Cap(cap),
            ChunkStep::AddMask(queries),
            ChunkStep::ToSingles,
            ChunkStep::Softmax,
            ChunkStep::BackToType,
            ChunkStep::TimesValues
        ]
    );
    let bare = NaiveAttention { softcapping: None, ..a };
    assert_eq!(
        bare.chunk(queries, false),
        vec![
            ChunkStep::TimesKeys(queries),
            ChunkStep::Scale,
            ChunkStep::ToSingles,
            ChunkStep::Softmax,
            ChunkStep::BackToType,
            ChunkStep::TimesValues
        ]
    );
}
