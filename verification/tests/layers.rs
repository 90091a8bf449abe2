//! Layers: weights, shards, norms, gating and experts.

use owl::dtype::Dtype;
use owl::models::layers::ctx_scope::CtxStack;
use owl::models::layers::deepstack::{deepstack_positions, DeepStackError};
use owl::models::layers::distributed::{
    kv_head_shard, packed_slices, Comm, EmptyWeight, HeadShardError, MergedParallelColumnLinear,
    ReplicatedLinear, TensorParallelColumnLinear, TensorParallelRowLinear,
};
use owl::models::layers::linear::{
    bias_slice, ggml_dtype_from_str, has_fp4_scale_tensors, has_fp8_tensors, linear, linear_b,
    linear_b_x, linear_is_prefill, linear_no_bias_merged_x, linear_product, local_last_dim,
    set_linear_is_prefill, shard, Linear, LinearError, LinearMode, LinearProduct, LinearX, LnFp8,
    LnNvfp4, QLinear, QMatMul, QProduct, Slice,
};
use owl::models::layers::mask::{causal_mask, get_attention_causal_mask, NEG_INF};
use owl::models::layers::mlp::{
    gate_and_up, Activation, ActivationKernel, GateUpProjection, MlpError, MlpStep, NaiveMLP, MLP,
};
use owl::models::layers::moe::{
    pick_moe_block_size, w_size_n, FusedMoe, FusedMoeWNA16, MoEConfig, MoeRouting, RouteScores,
    Wna16Error,
};
use owl::models::layers::others::{
    conv2d, embedding, embedding_dim, embedding_vocab, layer_norm, plan_v4, rms_norm,
    rms_norm_sharded, rms_norm_v4, AvgPool2d, Conv, Conv3dConfig, Conv3dNoBias, EmbeddingPlan,
    NormKind,
    NormPath, V4Error,
};
use owl::models::layers::shape::{product, reversed, same_dims, DimOutOfBounds, Shape};
use owl::models::layers::tensor::{is_iq_gguf_dtype, Conv2dConfig, GgmlDType, Shard};
use owl::models::layers::var_builder::{
    bytes_of_words, collect_key_map, convert_weights, words_of_bytes, TensorEntry, VarBuilderX,
    WeightData, WeightError,
};
use owl::models::layers::wna16::{
    check_ct_awq_merged_chunk, ChunkError, PrequantError, Wna16Kernel, WNA16,
};
use std::sync::Arc;

const WHOLE: Shard = Shard { dim: 0, rank: 0, world_size: 0 };

fn entry(name: &str, shape: &[usize]) -> TensorEntry {
    TensorEntry { name: name.to_string(), shape: shape.to_vec(), dtype: GgmlDType::Q8_0 }
}

fn directory(path: &str, is_gguf: bool, entries: Vec<TensorEntry>) -> VarBuilderX {
    VarBuilderX {
        path: path.to_string(),
        is_gguf,
        gguf: Some(Arc::new(entries)),
        has_pool: true,
    }
}

fn dense(path: &str) -> VarBuilderX {
    VarBuilderX { path: path.to_string(), is_gguf: false, gguf: None, has_pool: false }
}

#[test]
fn masks_hide_what_comes_later() {
    let m = causal_mask(3, None);
    assert_eq!(m, vec![0, NEG_INF, NEG_INF, 0, 0, NEG_INF, 0, 0, 0]);
    assert_eq!(f32::from_bits(NEG_INF), f32::NEG_INFINITY);
    let w = causal_mask(3, Some(2));
    assert_eq!(w, vec![0, NEG_INF, NEG_INF, 0, 0, NEG_INF, NEG_INF, 0, 0]);
    assert_eq!(causal_mask(0, None).len(), 0);
}

#[test]
fn masks_of_packed_sequences() {
    let masks = get_attention_causal_mask(&[2, 5], None, true).unwrap();
    assert_eq!(masks.len(), 2);
    assert_eq!(masks[0], causal_mask(2, None));
    assert_eq!(masks[1], causal_mask(3, None));
    assert!(get_attention_causal_mask(&[2, 5], None, false).is_none());
}

#[test]
fn visual_rows_go_to_marked_positions() {
    assert_eq!(deepstack_positions(&[false, true, true, false, true], 3), Ok(vec![1, 2, 4]));
    assert_eq!(deepstack_positions(&[false], 0), Ok(vec![]));
    assert_eq!(deepstack_positions(&[false], 2), Err(DeepStackError::EmptyMask { embeds: 2 }));
    assert_eq!(
        deepstack_positions(&[true, true], 1),
        Err(DeepStackError::Mismatch { embeds: 1, masked: 2 })
    );
}

#[test]
fn scopes_nest() {
    let mut stack: CtxStack<u32> = CtxStack::new();
    assert!(stack.current().is_none());
    let outer = stack.push(1);
    let inner = stack.push(2);
    assert_eq!(stack.current(), Some(&2));
    stack.pop(inner);
    assert_eq!(stack.current(), Some(&1));
    stack.pop(outer);
    assert!(stack.current().is_none());
}

#[test]
fn prefill_mode_is_restored() {
    let mut mode = LinearMode::new();
    let before = linear_is_prefill(&mode);
    let outer = set_linear_is_prefill(&mut mode, true);
    let inner = set_linear_is_prefill(&mut mode, false);
    assert!(!linear_is_prefill(&mode));
    mode.restore(inner);
    assert!(linear_is_prefill(&mode));
    mode.restore(outer);
    assert_eq!(linear_is_prefill(&mode), before);
}

#[test]
fn linear_plans() {
    let sd = shard(1, 2, 4);
    let p = linear(8, 16, sd, Dtype::BF16);
    assert_eq!((p.weight.name, p.weight.shape), ("weight", vec![16, 8]));
    assert_eq!((p.weight.shard, p.dtype, p.bias), (sd, Dtype::BF16, Some(16)));
    assert_eq!(linear_b(8, 16, false, sd, Dtype::BF16).bias, None);
    let m = linear_no_bias_merged_x(3, 8, 16, &dense("m"), sd, Dtype::F16);
    assert_eq!(m.weight.shape, vec![3, 16, 8]);
    assert_eq!(m.weight.shard, shard(2, 2, 4));
    let b = linear_b_x(8, 16, true, &dense("m"), sd, Some("gptq"), true, Dtype::F16);
    assert_eq!(b.bias, None);
}

#[test]
fn bias_parts() {
    assert_eq!(bias_slice(10, shard(0, 0, 1)), Slice { start: 0, len: 10 });
    assert_eq!(bias_slice(10, shard(0, 0, 3)), Slice { start: 0, len: 3 });
    assert_eq!(bias_slice(10, shard(0, 2, 3)), Slice { start: 6, len: 3 });
    assert_eq!(local_last_dim(10, shard(1, 0, 2)), 5);
    assert_eq!(local_last_dim(10, shard(0, 0, 2)), 10);
}

#[test]
fn products_by_rank() {
    assert_eq!(
        linear_product(&[2, 3, 4, 5]),
        LinearProduct::BroadcastTwo { outer: 2, inner: 3 }
    );
    assert_eq!(linear_product(&[2, 3, 4]), LinearProduct::BroadcastOne { outer: 2 });
    assert_eq!(
        linear_product(&[6, 1, 4]),
        LinearProduct::Flattened { rows: 6, dim: 4, batch: 6, seq_len: 1 }
    );
    assert_eq!(linear_product(&[6, 4]), LinearProduct::Plain);
    assert_eq!(linear_product(&[6, 1, 4, 2]), LinearProduct::Plain);
}

#[test]
fn quantized_type_names() {
    assert_eq!(ggml_dtype_from_str("Q4_0"), GgmlDType::Q4_0);
    assert_eq!(ggml_dtype_from_str("q4"), GgmlDType::Q4_1);
    assert_eq!(ggml_dtype_from_str("Q50"), GgmlDType::Q5_0);
    assert_eq!(ggml_dtype_from_str("q5_1"), GgmlDType::Q5_1);
    assert_eq!(ggml_dtype_from_str("q80"), GgmlDType::Q8_0);
    assert_eq!(ggml_dtype_from_str("anything"), GgmlDType::Q4K);
    assert!(!is_iq_gguf_dtype());
}

fn wna16(a8: bool, awq: bool) -> WNA16<u32> {
    WNA16 {
        weight: 1,
        bias: None,
        scales: Some(2),
        qzeros: None,
        g_idx: None,
        workspace: None,
        group_size: 128,
        bits: 4,
        dtype: Dtype::BF16,
        is_awq: awq,
        a8,
        a_global: 0,
        awq_z: if awq { Some(3) } else { None },
    }
}

fn quantized(inner: Option<u32>, w: Option<WNA16<u32>>) -> QLinear<u32> {
    QLinear { inner: inner.map(QMatMul::QTensor), bias: None, wna16: w, dtype: Dtype::F16 }
}

#[test]
fn quantized_products() {
    assert_eq!(quantized(Some(1), Some(wna16(false, false))).product(), Ok(QProduct::Wna16));
    assert_eq!(quantized(Some(1), None).product(), Ok(QProduct::QMatMul));
    assert_eq!(quantized(None, None).product(), Err(LinearError::InvalidQuantization));
    assert_eq!(quantized(Some(1), None).indexed_moe_product(), Ok(()));
    assert_eq!(
        quantized(None, Some(wna16(false, false))).indexed_moe_product(),
        Err(LinearError::InvalidQuantization)
    );
}

#[test]
fn four_bit_kernels() {
    assert_eq!(wna16(false, false).kernel(), Wna16Kernel::W4A16);
    assert_eq!(
        wna16(false, true).kernel(),
        Wna16Kernel::Awq { compute: Dtype::F16, back_to: Dtype::BF16 }
    );
    assert_eq!(wna16(true, false).check_prequant(2), Ok(()));
    assert_eq!(wna16(true, false).check_prequant(3), Err(PrequantError::NotTwoDimensional));
    // The rank is looked at before the scales.
    let bare = WNA16 { scales: None, ..wna16(true, false) };
    assert_eq!(bare.check_prequant(3), Err(PrequantError::NotTwoDimensional));
    assert_eq!(wna16(false, false).check_prequant(2), Err(PrequantError::NotW4A8));
    assert_eq!(check_ct_awq_merged_chunk(256, 64, 12, 4, 128), Ok(()));
    let refused = ChunkError { chunk_len: 13, world: 4, in_dim: 256, group_size: 128 };
    assert_eq!(check_ct_awq_merged_chunk(256, 64, 13, 4, 128), Err(refused));
    assert!(check_ct_awq_merged_chunk(200, 64, 12, 4, 128).is_err());
    assert!(check_ct_awq_merged_chunk(256, 63, 12, 4, 128).is_err());
}

#[test]
fn layers_of_any_kind() {
    let plain: LinearX<u32> = LinearX::Linear(Linear::new(7, Some(8)));
    assert_eq!(plain.dense_weight(), Ok(&7));
    assert_eq!(plain.check_prequant(2), Err(LinearError::PrequantOtherKind));
    assert_eq!(plain.dense_conversion(Dtype::BF16, Dtype::F32), Some((Dtype::BF16, Dtype::F32)));
    assert_eq!(plain.dense_conversion(Dtype::BF16, Dtype::BF16), None);
    assert!(!plain.w4a8_active() && plain.as_nvfp4().is_none());
    let q: LinearX<u32> = LinearX::QLinear(quantized(None, Some(wna16(true, false))));
    assert!(q.w4a8_active());
    assert_eq!(q.check_prequant(2), Ok(()));
    assert_eq!(
        q.check_prequant(1),
        Err(LinearError::Prequant(PrequantError::NotTwoDimensional))
    );
    assert_eq!(q.dense_weight(), Err(LinearError::DenseOfQuantized));
    let bare: LinearX<u32> = LinearX::QLinear(quantized(Some(1), None));
    assert_eq!(bare.check_prequant(2), Err(LinearError::PrequantWithoutWna16));
    let fp8: LinearX<u32> = LinearX::LnFp8(LnFp8 {
        weight: 1,
        weight_scale: 2,
        weight_scale_cutlass: None,
        input_scale: None,
        bias: None,
        weight_block_size: vec![128, 128],
        sm_version: 89,
        ue8m0: false,
    });
    assert_eq!(fp8.fp8_weight_scale(), Some((&1, &2)));
    let fp4: LinearX<u32> = LinearX::LnNvfp4(LnNvfp4 { weight: 5, bias: None });
    assert_eq!(fp4.as_nvfp4().unwrap().weight, 5);
    assert!(fp4.fp8_weight_scale().is_none());
    let own = Linear::new(1, Some(2));
    assert_eq!((own.weight(), own.bias()), (&1, Some(&2)));
}

#[test]
fn scales_in_the_directory() {
    let mlx = directory("l", false, vec![entry("l.weight", &[1]), entry("l.scales", &[1])]);
    assert!(has_fp4_scale_tensors(&mlx, true) && !has_fp4_scale_tensors(&mlx, false));
    let packed = directory("l", false, vec![entry("l.blocks", &[1])]);
    assert!(has_fp4_scale_tensors(&packed, false) && !has_fp4_scale_tensors(&packed, true));
    assert!(!has_fp8_tensors(&packed));
    let inv = directory("l", false, vec![entry("l.weight_scale_inv", &[1])]);
    assert!(has_fp8_tensors(&inv));
}

#[test]
fn names_below_paths() {
    let vb = dense("");
    assert_eq!(vb.pp("model").path(), "model");
    assert_eq!(vb.pp("model").pp("layers").full_name("weight"), "model.layers.weight");
    assert_eq!(vb.pp("model").at("other").path(), "other");
    assert!(vb.is_var_builder() && !vb.is_qvar_builder() && !vb.is_gguf());
}

#[test]
fn weights_are_found_and_checked() {
    let vb = directory("m", true, vec![entry("m.w", &[3, 2]), entry("m.v", &[4])]);
    assert!(vb.has_key("v") && vb.contains_tensor("w") && !vb.has_key("x"));
    assert_eq!(vb.tensor_shape("w"), Some(vec![2, 3]));
    assert!(vb.tensor_shape("x").is_none());
    let p = vb.plan_get(&[2, 3], "w").unwrap();
    assert_eq!((p.index, p.dtype, p.shape), (0, GgmlDType::Q8_0, vec![2, 3]));
    assert!(matches!(
        vb.plan_get(&[3, 2], "w"),
        Err(WeightError::ShapeMismatch { name }) if name == "m.w"
    ));
    assert!(matches!(
        vb.plan_get(&[1], "x"),
        Err(WeightError::Missing { name }) if name == "m.x"
    ));
    assert!(matches!(dense("m").plan_get(&[1], "w"), Err(WeightError::NotGguf)));
    assert_eq!(vb.plan_get_no_shape("v").unwrap().shape, vec![4]);
    assert!(matches!(vb.plan_get_no_shape("x"), Err(WeightError::Missing { .. })));
    // The first of two entries with one name counts.
    let twice = directory("", true, vec![entry("w", &[1]), entry("w", &[2])]);
    assert_eq!(twice.tensor_shape("w"), Some(vec![1]));
}

/// Singles stay as they are stored; other types have to be decoded.
#[test]
fn weights_on_the_host() {
    let single = TensorEntry {
        name: "w".to_string(),
        shape: vec![2, 1],
        dtype: GgmlDType::F32,
    };
    let vb = directory("", true, vec![single, entry("q", &[1])]);
    let plan = vb.plan_get(&[1, 2], "w").ok().unwrap();
    let raw: Vec<u8> = [1.5f32, -3.0].iter().flat_map(|f| f.to_le_bytes()).collect();
    let singles = plan.stored_singles(&raw).unwrap();
    assert_eq!(singles, vec![1.5f32.to_bits(), (-3.0f32).to_bits()]);
    let host = plan.on_host(&singles);
    assert_eq!((host.shape, host.data), (vec![1, 2], raw.clone()));
    assert!(vb.plan_get(&[1], "q").ok().unwrap().stored_singles(&raw).is_none());
}

#[test]
fn weights_in_their_target_type() {
    let ones = vec![1.0f32.to_bits(), (-2.5f32).to_bits()];
    assert!(matches!(convert_weights(ones.clone(), false, Dtype::F32), Err(WeightError::NoPool)));
    assert!(matches!(
        convert_weights(ones.clone(), true, Dtype::F32),
        Ok(WeightData::F32(v)) if v == ones
    ));
    assert!(matches!(
        convert_weights(ones.clone(), true, Dtype::BF16),
        Ok(WeightData::BF16(v)) if v == vec![0x3f80, 0xc020]
    ));
    assert!(matches!(
        convert_weights(ones.clone(), true, Dtype::F16),
        Ok(WeightData::F16(v)) if v == vec![0x3c00, 0xc100]
    ));
    assert!(matches!(
        convert_weights(ones, true, Dtype::U8),
        Err(WeightError::DtypeClosed { dtype: Dtype::U8 })
    ));
}

#[test]
fn words_are_little_endian() {
    assert_eq!(words_of_bytes(&[1, 2, 3, 4, 5]), vec![0x0403_0201]);
    assert_eq!(bytes_of_words(&[0x0403_0201, 7]), vec![1, 2, 3, 4, 7, 0, 0, 0]);
    assert_eq!(words_of_bytes(&bytes_of_words(&[u32::MAX, 0, 9])), vec![u32::MAX, 0, 9]);
}

#[test]
fn key_names_by_directory() {
    let pairs = [("q_proj", "attn_q"), ("norm", "attn_norm"), ("norm", "ffn_norm")];
    let own = collect_key_map(false, pairs);
    assert_eq!((own.get("q_proj"), own.get("missing")), (Some("q_proj"), None));
    let file = collect_key_map(true, pairs);
    assert_eq!(file.get("q_proj"), Some("attn_q"));
    assert_eq!(file.get("norm"), Some("ffn_norm"));
}

#[test]
fn shapes_from_tuples() {
    assert_eq!(Shape::from((2, 3, 4)).dims(), &[2, 3, 4]);
    assert_eq!(Shape::from(5).dims(), &[5]);
    assert_eq!(Shape::from([1, 2]).ndim(), 2);
    assert_eq!(Shape::of(&[7, 8]).dim(1), Ok(8));
    assert_eq!(Shape::of(&[7, 8]).dim(2), Err(DimOutOfBounds { dim: 2 }));
    assert_eq!(product(&[2, 3, 4]), 24);
    assert_eq!(product(&[]), 1);
    assert_eq!(reversed(&[1, 2, 3]), vec![3, 2, 1]);
    assert!(same_dims(&[1, 2], &[1, 2]) && !same_dims(&[1, 2], &[2, 1]));
}

#[test]
fn heads_over_ranks() {
    assert_eq!(kv_head_shard(8, 1, 4), Ok((2, shard(0, 1, 4))));
    assert_eq!(
        kv_head_shard(6, 1, 4),
        Err(HeadShardError { num_kv_heads: 6, world_size: 4 })
    );
    assert_eq!(*Comm::new(), Comm::default());
}

#[test]
fn parallel_layers() {
    let comm = Comm { world_size: 2, rank: 1 };
    let vb = dense("m");
    let whole = ReplicatedLinear::load_b(4, 6, true, &vb, Dtype::F16);
    assert_eq!((whole.path.as_str(), whole.inner.weight.shard), ("m", WHOLE));
    let col =
        TensorParallelColumnLinear::load_with_hints(4, 6, false, &vb, &comm, None, false, Dtype::F16);
    assert_eq!(col.inner.weight.shard, shard(0, 1, 2));
    assert_eq!(col.inner.weight.shape, vec![6, 4]);
    let row = TensorParallelRowLinear::load_with_hints(4, 6, &vb, &comm, None, false, Dtype::BF16);
    assert_eq!(row.inner.weight.shard, shard(1, 1, 2));
    assert_eq!((row.dtype(), row.comm), (Dtype::BF16, comm));
}

#[test]
fn merged_layers() {
    let vb = dense("m");
    let merged = MergedParallelColumnLinear::load_merged_chunks(4, &[6, 8], &vb, None, false, Dtype::F16);
    assert_eq!(merged.linears.len(), 2);
    assert_eq!(merged.linears[1].path, "m.1");
    assert_eq!(merged.linears[1].inner.weight.shape, vec![4, 8]);
    let parts = packed_slices(&[4, 2, 3]);
    assert_eq!(
        parts,
        vec![Slice { start: 0, len: 4 }, Slice { start: 4, len: 2 }, Slice { start: 6, len: 3 }]
    );
    assert_eq!(MergedParallelColumnLinear::from_packed_local(&[9, 5], &[4, 2, 3]), Ok(parts));
    assert_eq!(MergedParallelColumnLinear::from_packed_local(&[], &[1]), Err(EmptyWeight));
}

fn mlp(activation: Activation, merged: bool) -> MLP {
    MLP::new(&dense("mlp"), &Comm::default(), 8, 16, activation, None, false, merged, Dtype::BF16)
}

#[test]
fn gated_layers() {
    let m = mlp(Activation::Silu, false);
    assert!(matches!(
        &m.gate_up_proj,
        GateUpProjection::Separate { gate_proj, up_proj }
            if gate_proj.path == "mlp" && up_proj.path == "mlp.up_proj"
    ));
    assert_eq!(m.down_proj.path, "mlp.down_proj");
    assert_eq!(m.down_proj.inner.weight.shape, vec![8, 16]);
    assert!(matches!(
        &mlp(Activation::Silu, true).gate_up_proj,
        GateUpProjection::Packed(group) if group.linears.len() == 2
    ));
    assert_eq!(m.apply_activation(), Ok(ActivationKernel::SiluAndMul));
    assert_eq!(
        m.with_swiglu_limit(true).apply_activation(),
        Err(MlpError::SwigluLimit)
    );
    assert_eq!(mlp(Activation::Gelu, false).apply_activation(), Ok(ActivationKernel::GeluThenMul));
    assert_eq!(
        mlp(Activation::NewGelu, false).apply_activation(),
        Ok(ActivationKernel::GeluThenMul)
    );
    assert_eq!(
        mlp(Activation::Other, false).apply_activation(),
        Err(MlpError::UnsupportedActivation)
    );
    assert_eq!(gate_and_up(vec![1, 2, 3]), Ok((1, 2)));
    assert_eq!(gate_and_up(vec![1]), Err(MlpError::MissingUp));
    assert_eq!(gate_and_up(Vec::<u32>::new()), Err(MlpError::EmptyPacked));
}

#[test]
fn feed_forward_passes() {
    let separate = mlp(Activation::Silu, false);
    assert_eq!(
        separate.forward(0),
        Ok(vec![
            MlpStep::ProjectGate,
            MlpStep::ProjectUp,
            MlpStep::Activate(ActivationKernel::SiluAndMul),
            MlpStep::ProjectDown
        ])
    );
    let packed = mlp(Activation::Gelu, true);
    assert_eq!(
        packed.forward(2),
        Ok(vec![
            MlpStep::ProjectGateUp,
            MlpStep::Activate(ActivationKernel::GeluThenMul),
            MlpStep::ProjectDown
        ])
    );
    assert_eq!(packed.forward(0), Err(MlpError::EmptyPacked));
    assert_eq!(packed.forward(1), Err(MlpError::MissingUp));
    // A missing output comes before a missing kernel.
    let other = mlp(Activation::Other, true);
    assert_eq!(other.forward(1), Err(MlpError::MissingUp));
    assert_eq!(other.forward(2), Err(MlpError::UnsupportedActivation));
    let kernel = |a: Activation| NaiveMLP::new(1, 2, 3, a).forward()[2];
    assert_eq!(kernel(Activation::Silu), MlpStep::Activate(ActivationKernel::SiluThenMul));
    assert_eq!(kernel(Activation::Other), MlpStep::Activate(ActivationKernel::GeluThenMul));
    assert_eq!(
        NaiveMLP::new(1, 2, 3, Activation::Silu).forward()[3],
        MlpStep::ProjectDown
    );
}

fn experts(topk_method: Option<&str>, scoring_func: Option<&str>) -> MoEConfig {
    MoEConfig {
        num_experts: Some(64),
        num_experts_per_tok: 8,
        topk_method: topk_method.map(str::to_string),
        scoring_func: scoring_func.map(str::to_string),
        n_group: None,
        topk_group: Some(3),
        norm_topk_prob: true,
        routed_scaling_factor: Some(2.5f64.to_bits()),
    }
}

#[test]
fn routing() {
    let r: MoeRouting<u32> = MoeRouting::from_moe_cfg(&experts(None, Some("sigmoid")), Some(1));
    assert_eq!((r.n_group, r.topk_group, r.num_experts_per_tok), (1, 3, 8));
    assert_eq!(r.route(), RouteScores::SigmoidPlusBias);
    let r: MoeRouting<u32> = MoeRouting::from_moe_cfg(&experts(Some("noaux_tc"), None), None);
    assert_eq!(r.route(), RouteScores::Sigmoid);
    let r: MoeRouting<u32> = MoeRouting::from_moe_cfg(&experts(None, Some("softmax")), Some(1));
    assert_eq!(r.route(), RouteScores::Logits);
}

#[test]
fn expert_blocks() {
    assert_eq!([0, 4, 5, 16, 17].map(|n| pick_moe_block_size(n, 64)), [4, 4, 16, 16, 32]);
    assert_eq!(w_size_n(15), 7);
}

#[test]
fn fused_experts() {
    let cfg = experts(None, None);
    let comm = Comm { world_size: 2, rank: 0 };
    let moe = dense("moe");
    let m: FusedMoe<u32> =
        FusedMoe::new(&cfg, 32, Activation::Gelu, true, false, &moe, &comm, Dtype::BF16);
    assert_eq!(m.act, Activation::Gelu);
    assert_eq!((m.gate_path.as_str(), m.experts_path.as_str()), ("moe.gate", "moe.experts"));
    assert_eq!(m.gate.weight.shape, vec![64, 32]);
    assert_eq!(m.gate_conversion(Dtype::BF16), Some(Dtype::F32));
    assert_eq!(m.gate_conversion(Dtype::F32), None);
    let q: FusedMoeWNA16<u32> =
        FusedMoeWNA16::new(&cfg, Activation::Silu, false, &comm, Dtype::F16, 4, 128, "gptq").ok().unwrap();
    assert_eq!((q.bits, q.group_size, q.legacy_gptq, q.gate_dtype), (4, 128, true, Dtype::F16));
    assert_eq!(q.gate_conversion(Dtype::BF16), Some(Dtype::F16));
    let refused: Result<FusedMoeWNA16<u32>, Wna16Error> =
        FusedMoeWNA16::new(&cfg, Activation::Silu, false, &comm, Dtype::F16, 3, 128, "awq");
    assert_eq!(refused.err(), Some(Wna16Error { bits: 3, group_size: 128 }));
    let refused: Result<FusedMoeWNA16<u32>, Wna16Error> =
        FusedMoeWNA16::new(&cfg, Activation::Silu, false, &comm, Dtype::F16, 8, -1, "awq");
    assert_eq!(refused.err(), Some(Wna16Error { bits: 8, group_size: -1 }));
}

#[test]
fn norms() {
    let sd = shard(0, 1, 2);
    let n = rms_norm_sharded(64, 5, &dense("n"), Dtype::BF16, true, sd);
    assert_eq!((n.shard, n.dtype, n.add_one, n.v4), (sd, Dtype::BF16, true, false));
    let g = rms_norm_sharded(64, 5, &directory("n", true, vec![]), Dtype::BF16, false, sd);
    assert_eq!((g.shard, g.dtype, g.dequantize), (WHOLE, Dtype::F32, true));
    assert_eq!(g.path(Dtype::BF16), NormPath::Converted { to: Dtype::F32, back: Dtype::BF16 });
    assert_eq!(g.path(Dtype::F32), NormPath::Plain);
    let v = rms_norm_v4(64, 5, &dense("n"), Dtype::BF16);
    assert_eq!(v.path(Dtype::F32), NormPath::V4);
    assert_eq!(v.forward_v4_inplace(&[3, 64]), Ok(64));
    assert_eq!(v.forward_v4_inplace(&[]), Err(V4Error::EmptyDims));
    assert_eq!(
        rms_norm(64, 5, &dense("n"), Dtype::BF16, false).forward_v4_inplace(&[3, 64]),
        Err(V4Error::NoWeight)
    );
    let l = layer_norm(64, 6, true, &dense("n"), Dtype::F16);
    assert_eq!((l.kind, l.bias, l.eps), (NormKind::Layer, true, 6));
    let plain = layer_norm(64, 6, false, &dense("n"), Dtype::F16);
    assert_eq!((plain.kind, plain.bias), (NormKind::Layer, false));
    assert_eq!((n.kind, g.kind, v.kind), (NormKind::Rms, NormKind::Rms, NormKind::Rms));
}

#[test]
fn fixed_order_norms() {
    let p = plan_v4(&[3, 64], Dtype::BF16).unwrap();
    assert_eq!((p.rows, p.dim, p.fast, p.convert), (3, 64, true, None));
    let p = plan_v4(&[2, 3, 64], Dtype::F32).unwrap();
    assert_eq!((p.rows, p.fast, p.restore_shape), (6, false, true));
    assert_eq!((p.convert, p.convert_back), (Some(Dtype::BF16), Some(Dtype::F32)));
    assert_eq!(plan_v4(&[0, 64], Dtype::BF16).unwrap().rows, 1);
    assert_eq!(plan_v4(&[64], Dtype::BF16).unwrap().rows, 1);
    assert_eq!(plan_v4(&[], Dtype::BF16), Err(V4Error::EmptyDims));
}

#[test]
fn embeddings() {
    assert_eq!(
        embedding(Some(100), 64, &dense("e"), Dtype::BF16),
        EmbeddingPlan::Dense { vocab: 100, hidden: 64, dtype: Dtype::BF16 }
    );
    let scaled = directory("e", false, vec![entry("e.scales", &[1])]);
    assert_eq!(
        embedding(Some(100), 64, &scaled, Dtype::F32),
        EmbeddingPlan::MlxNvfp4 {
            vocab: 100,
            weight_cols: 8,
            scale_cols: 4,
            out_dtype: Dtype::BF16
        }
    );
    let file = directory("e", true, vec![]);
    assert_eq!(
        embedding(Some(100), 64, &file, Dtype::F32),
        EmbeddingPlan::Sized { vocab: 100, hidden: 64 }
    );
    assert_eq!(embedding(None, 64, &file, Dtype::F32), EmbeddingPlan::Listed);
    assert_eq!((embedding_vocab(None, &[9, 4]), embedding_vocab(Some(7), &[9, 4])), (9, 7));
    assert_eq!((embedding_dim(&[9, 4]), embedding_dim(&[])), (4, 0));
}

#[test]
fn convolutions() {
    let c = Conv::new(&[16, 8, 3], true);
    assert_eq!((c.kernel, c.stride, c.groups, c.padding, c.dilation), (3, 1, 1, 0, 1));
    let cfg = Conv2dConfig { padding: 1, stride: 2, dilation: 1, groups: 2 };
    assert_eq!(conv2d(8, 16, 3, cfg, &dense("c"), true), (vec![16, 4, 3, 3], Some(16)));
    let v = Conv3dNoBias::new(6, 32, [2, 14, 14], Conv3dConfig::default(), &dense("c"));
    assert_eq!(v.shape, vec![32, 6, 2, 14, 14]);
    assert_eq!(v.fallback_shape, vec![32, 2, 14, 14, 6]);
    let permuted: Vec<usize> = v.fallback_permute.iter().map(|d| v.fallback_shape[*d]).collect();
    assert_eq!(permuted, v.shape);
    assert_eq!(v.frames, (Slice { start: 0, len: 1 }, Slice { start: 1, len: 1 }));
    assert_eq!((v.flat.stride, v.flat.groups), (1, 1));
    assert_eq!(AvgPool2d::new(2, 3), AvgPool2d { kernel_size: 2, stride: 3 });
}
