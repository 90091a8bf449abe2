//! Gated delta net layers.

use owl::config::Config;
use owl::dtype::Dtype;
use owl::models::layers::deltanet::{
    check_conv1d_fwd, check_conv1d_update, check_merged_chunks, convert_to, decode_launch,
    gate_is_sigmoid, gated_norm_launch, gating_launch, gdn_key_map, gdn_types, is_weight_fp8,
    is_weight_quantized, last_dim_rows, merged_qkv_is_closed, plan_conv, plan_recurrence,
    plan_recurrence_path, projection_key_map, resolve_quant_for_weight, rollback_conv,
    rollback_recurrent, ConvLaunch, ConvPath, ConvSlices, ConvWeight, GatedDeltaNet, GdnCall,
    GdnDims, GdnError, GdnStep, HybridConfig, ProjectionKind, ProjectionLoader, ProjectionStep,
    RecurrenceInput, RecurrencePath, Rollback, WeightQuant, NO_SLOT,
};
use owl::models::layers::distributed::Comm;
use owl::models::layers::linear::Slice;
use owl::models::layers::mlp::Activation;
use owl::models::layers::tensor::{GgmlDType, Shard};
use owl::models::layers::var_builder::{TensorEntry, VarBuilderX};
use std::sync::Arc;

const HYBRID: HybridConfig = HybridConfig {
    num_v_heads: 8,
    num_k_heads: 4,
    key_head_dim: 16,
    value_head_dim: 32,
    conv_kernel_size: 4,
};

fn listing(path: &str, is_gguf: bool, names: &[&str]) -> VarBuilderX {
    let entries: Vec<TensorEntry> = names
        .iter()
        .map(|n| TensorEntry { name: n.to_string(), shape: vec![1], dtype: GgmlDType::F32 })
        .collect();
    VarBuilderX { path: path.to_string(), is_gguf, gguf: Some(Arc::new(entries)), has_pool: true }
}

/// The bits of one millionth.
const EPS: u64 = 0x3eb0_c6f7_a0b5_ed8d;

fn config() -> Config {
    Config {
        architecture: String::new(),
        vocab_size: Some(100),
        hidden_size: 64,
        intermediate_size: 16,
        num_hidden_layers: 4,
        num_attention_heads: 8,
        num_key_value_heads: 4,
        head_dim: None,
        hidden_act: Activation::Silu,
        rms_norm_eps: EPS,
        rope_theta: Some(10_000_000.0f64.to_bits()),
        tie_word_embeddings: None,
        qkv_bias: None,
        attention_bias: None,
        attn_output_gate: None,
        output_gate_type: None,
        sliding_window: None,
        quant_method: None,
        is_mlx_nvfp4: false,
        sym: None,
        quantizes_on_load: false,
        is_f16_mode: false,
        higher_precision_required: false,
        mtp_enabled: false,
        mtp_max_verify_tokens: 0,
        layer_types: Vec::new(),
        hybrid: HYBRID,
    }
}

fn ranks(rank: usize, world_size: usize) -> Comm {
    Comm { world_size, rank }
}

#[test]
fn sizes_of_a_rank() {
    let d = GdnDims::resolve(&HYBRID, &ranks(1, 2)).unwrap();
    assert_eq!((d.key_dim_global, d.value_dim_global, d.conv_dim_global), (64, 256, 384));
    assert_eq!((d.num_v_heads, d.num_k_heads, d.kv_group_size), (4, 2, 2));
    assert_eq!((d.key_dim, d.value_dim, d.d_conv), (32, 128, 192));
    // All ranks together hold all channels.
    assert_eq!(2 * d.d_conv, d.conv_dim_global);
}

#[test]
fn heads_that_do_not_divide() {
    let odd = HybridConfig { num_v_heads: 6, ..HYBRID };
    assert_eq!(
        GdnDims::resolve(&odd, &ranks(0, 1)),
        Err(GdnError::HeadGroups { num_v_heads: 6, num_k_heads: 4 })
    );
    assert_eq!(
        GdnDims::resolve(&HYBRID, &ranks(0, 3)),
        Err(GdnError::HeadRanks { num_v_heads: 8, num_k_heads: 4, world_size: 3 })
    );
}

#[test]
fn channels_of_a_rank() {
    let comm = ranks(1, 2);
    let d = GdnDims::resolve(&HYBRID, &comm).unwrap();
    let s = d.conv_slices(&comm);
    assert_eq!(s.q, Slice { start: 32, len: 32 });
    assert_eq!(s.k, Slice { start: 96, len: 32 });
    assert_eq!(s.v, Slice { start: 256, len: 128 });
    assert_eq!(s.q.len + s.k.len + s.v.len, d.d_conv);
    let c = d.columns();
    assert_eq!((c.q.start, c.k.start, c.v), (0, 32, Slice { start: 64, len: 128 }));
}

#[test]
fn fused_rows_are_cut_by_key_head() {
    let d = GdnDims::resolve(&HYBRID, &ranks(0, 1)).unwrap();
    let f = d.fused_split();
    assert_eq!((f.qkvz_group_dim, f.ba_group_dim), (160, 4));
    assert_eq!(f.key, Slice { start: 16, len: 16 });
    assert_eq!(f.value, Slice { start: 32, len: 64 });
    assert_eq!(f.z, Slice { start: 96, len: 64 });
    assert_eq!((f.b, f.a), (Slice { start: 0, len: 2 }, Slice { start: 2, len: 2 }));
    assert_eq!(d.num_k_heads * f.value.len, d.value_dim);
    let p = d.projection_sizes();
    assert_eq!((p.qkvz, p.ba, p.qkv, p.z, p.b, p.a), (640, 16, 384, 256, 8, 8));
}

#[test]
fn stored_forms_of_weights() {
    let plain = listing("p", false, &[]);
    let has = |names: &[&str]| {
        let full: Vec<String> = names.iter().map(|n| format!("p.{}", n)).collect();
        listing("p", false, &full.iter().map(String::as_str).collect::<Vec<&str>>())
    };
    assert!(!is_weight_quantized(&plain, "fp8") && is_weight_quantized(&plain, "unknown"));
    assert!(is_weight_quantized(&has(&["weight_scale_inv"]), "fp8"));
    assert!(is_weight_quantized(&has(&["blocks"]), "mxfp4"));
    assert!(is_weight_quantized(&has(&["weight_packed", "weight_scale"]), "nvfp4"));
    assert!(is_weight_quantized(&has(&["weight_scale_2", "weight_scale"]), "nvfp4"));
    assert!(is_weight_quantized(&has(&["weight", "scales"]), "nvfp4"));
    assert!(!is_weight_quantized(&has(&["weight", "weight_scale"]), "nvfp4"));
    assert!(is_weight_quantized(&has(&["qweight"]), "gptq"));
    assert!(is_weight_quantized(&has(&["B"]), "awq"));
    assert!(!is_weight_quantized(&has(&["weight_packed"]), "compressed-tensors"));
    assert!(is_weight_fp8(&has(&["weight_scale"])));
    assert!(!is_weight_fp8(&listing("p", true, &["p.weight_scale"])));
}

#[test]
fn single_weights_may_differ_from_the_settings() {
    let fp8 = listing("p", false, &["p.weight_scale"]);
    assert_eq!(resolve_quant_for_weight(&fp8, Some("fp8")), WeightQuant::AsConfigured);
    assert_eq!(resolve_quant_for_weight(&fp8, Some("nvfp4")), WeightQuant::Fp8);
    assert_eq!(resolve_quant_for_weight(&fp8, Some("gptq")), WeightQuant::Plain);
    assert_eq!(resolve_quant_for_weight(&fp8, None), WeightQuant::Plain);
}

#[test]
fn parameter_names() {
    assert_eq!(gdn_key_map(true).get("A_log"), Some("ssm_a"));
    assert_eq!(gdn_key_map(false).get("norm.bias"), Some("norm.bias"));
    assert_eq!(projection_key_map(true).get("in_proj_b"), Some("ssm_beta"));
    assert_eq!(projection_key_map(false).get("missing"), None);
}

fn failed(reason: &str) -> Result<(), String> {
    Err(reason.to_string())
}

#[test]
fn the_fused_projection_is_tried_first() {
    let mut l = ProjectionLoader::new(1, false, false);
    assert_eq!(l.step, ProjectionStep::LoadFused);
    l.fused_loaded(Ok(()), Ok(()));
    assert_eq!(l.step, ProjectionStep::Done(ProjectionKind::FusedQkvzBa));
    assert_eq!(l.failure_text(), "");
}

#[test]
fn the_split_projection_comes_next() {
    let mut l = ProjectionLoader::new(1, false, false);
    l.fused_loaded(failed("no file"), Ok(()));
    l.split_loaded(Ok(()), Ok(()), Ok(()));
    assert_eq!(l.step, ProjectionStep::LoadLegacyQkv);
    l.legacy_loaded(Ok(()));
    assert_eq!(l.step, ProjectionStep::Done(ProjectionKind::SplitQkvZaLegacy));
}

#[test]
fn many_ranks_cut_the_projection() {
    let mut l = ProjectionLoader::new(2, true, false);
    l.fused_loaded(failed("x"), failed("y"));
    l.split_loaded(Ok(()), Ok(()), Ok(()));
    assert_eq!(l.step, ProjectionStep::LoadMergedQkv);
    l.merged_loaded(false);
    assert_eq!(l.step, ProjectionStep::FailMerged);
    let mut l = ProjectionLoader::new(2, true, true);
    l.fused_loaded(failed("x"), failed("y"));
    l.split_loaded(Ok(()), Ok(()), Ok(()));
    l.merged_loaded(false);
    assert_eq!(l.step, ProjectionStep::LoadLegacyQkv);
    let mut l = ProjectionLoader::new(2, true, false);
    l.fused_loaded(failed("x"), failed("y"));
    l.split_loaded(Ok(()), Ok(()), Ok(()));
    l.merged_loaded(true);
    assert_eq!(l.step, ProjectionStep::Done(ProjectionKind::SplitQkvZaMerged));
}

#[test]
fn failures_are_told_together() {
    let mut l = ProjectionLoader::new(1, false, false);
    l.fused_loaded(failed("gone"), Ok(()));
    l.split_loaded(Ok(()), failed("torn"), Ok(()));
    assert_eq!(l.step, ProjectionStep::Fail);
    assert_eq!(l.failure_text(), "in_proj_qkvz: gone; in_proj_b: torn");
}

#[test]
fn merged_projections() {
    assert!(merged_qkv_is_closed(Some("compressed-tensors"), Some(false)));
    assert!(!merged_qkv_is_closed(Some("compressed-tensors"), None));
    assert!(!merged_qkv_is_closed(Some("gptq"), Some(false)));
    assert_eq!(check_merged_chunks(3), Ok(()));
    assert_eq!(check_merged_chunks(2), Err(GdnError::MergedChunks { got: 2 }));
}

#[test]
fn element_types_of_the_layer() {
    let t = gdn_types(false, true, Dtype::F16);
    assert_eq!((t.gdn_dtype, t.model_dtype), (Dtype::F32, Dtype::F16));
    let t = gdn_types(true, false, Dtype::BF16);
    assert_eq!((t.gdn_dtype, t.model_dtype), (Dtype::F32, Dtype::F32));
    assert_eq!(convert_to(Dtype::F16, Dtype::F32), Some(Dtype::F32));
    assert_eq!(convert_to(Dtype::F16, Dtype::F16), None);
    assert!(gate_is_sigmoid(Some("Sigmoid")) && !gate_is_sigmoid(Some("swish")));
}

#[test]
fn convolution_weights() {
    let d = GdnDims::resolve(&HYBRID, &ranks(0, 1)).unwrap();
    let direct = ConvWeight::Direct { channels: 384, kernel: 4 };
    assert_eq!(d.conv_weight(false), direct);
    assert_eq!(d.conv_weight(true), ConvWeight::Unsqueezed { channels: 384, kernel: 4 });
    let permuted = ConvWeight::Permuted { channels: 384, kernel: 4 };
    assert_eq!(d.conv_weight_retry(direct), Some(permuted));
    assert_eq!(d.conv_weight_retry(permuted), None);
    assert_eq!(d.snapshot_shapes(3), (vec![16, 384, 3], vec![16, 8, 16, 32]));
    assert_eq!(d.snapshot_shapes(20).0[0], 20);
}

#[test]
fn convolutions_are_checked() {
    let ok = check_conv1d_fwd(false, Dtype::F32, &[5, 12], &[0, 2, 5], 2);
    assert_eq!(ok, Ok(ConvLaunch { batch: 2, channels: 12 }));
    assert_eq!(
        check_conv1d_fwd(true, Dtype::F32, &[5, 12], &[0, 5], 1),
        Err(GdnError::ConvSnapshotsClosed)
    );
    assert_eq!(
        check_conv1d_fwd(false, Dtype::F16, &[5, 12], &[0, 5], 1),
        Err(GdnError::NotF32 { dtype: Dtype::F16 })
    );
    assert_eq!(
        check_conv1d_fwd(false, Dtype::F32, &[5], &[0, 5], 1),
        Err(GdnError::ConvRank { rank: 1 })
    );
    assert_eq!(
        check_conv1d_fwd(false, Dtype::F32, &[5, 12], &[0, 5], 2),
        Err(GdnError::BoundsMismatch { bounds: 2, rows: 2 })
    );
    assert_eq!(
        check_conv1d_fwd(false, Dtype::F32, &[5, 12], &[0, 4], 1),
        Err(GdnError::BoundsTotal { last: 4, total: 5 })
    );
    assert_eq!(
        check_conv1d_update(Dtype::F32, &[3, 12]),
        Ok(ConvLaunch { batch: 3, channels: 12 })
    );
    assert_eq!(
        check_conv1d_update(Dtype::BF16, &[3, 12]),
        Err(GdnError::NotF32 { dtype: Dtype::BF16 })
    );
}

#[test]
fn launches_of_the_layer() {
    assert_eq!(last_dim_rows(&[2, 3, 4]), (6, 4));
    let g = gated_norm_launch(&[6, 256], 32, 32, false, true);
    assert_eq!((g.rows, g.value_dim, g.head_v_dim, g.per_group, g.act), (6, 256, 32, true, 1));
    assert!(!gated_norm_launch(&[6, 256], 256, 32, true, false).per_group);
    let l = decode_launch(&[3, 4, 16], &[3, 8, 32]);
    assert_eq!((l.batch, l.nv, l.nk, l.kd, l.vd), (3, 8, 4, 16, 32));
    assert_eq!(gating_launch(&[3, 8], 8), (24, 8));
}

fn recurrence() -> RecurrenceInput {
    RecurrenceInput {
        snapshots: false,
        dtype: Dtype::F32,
        q_shape: vec![5, 2, 16],
        v_shape: vec![5, 4, 8],
        bounds: vec![0, 2, 2, 5],
        slots: vec![1, NO_SLOT - 1, 0],
        state_rows: usize::MAX,
    }
}

#[test]
fn recurrence_steps_run_through_the_tokens() {
    let p = plan_recurrence(&recurrence()).ok().unwrap();
    assert_eq!((p.total, p.nk, p.kd, p.nv, p.vd), (5, 2, 16, 4, 8));
    let steps: Vec<(usize, usize, usize)> =
        p.steps.iter().map(|s| (s.seq, s.token, s.dst)).collect();
    assert_eq!(steps, vec![(0, 0, 0), (0, 1, 32), (2, 2, 64), (2, 3, 96), (2, 4, 128)]);
}

#[test]
fn recurrences_are_checked() {
    let refused = |i: RecurrenceInput| plan_recurrence(&i).err();
    assert_eq!(
        refused(RecurrenceInput { snapshots: true, ..recurrence() }),
        Some(GdnError::RecurrentSnapshotsClosed)
    );
    assert_eq!(
        refused(RecurrenceInput { dtype: Dtype::BF16, ..recurrence() }),
        Some(GdnError::NotF32 { dtype: Dtype::BF16 })
    );
    assert_eq!(
        refused(RecurrenceInput { q_shape: vec![5, 2], ..recurrence() }),
        Some(GdnError::QueryRank { rank: 2 })
    );
    assert_eq!(
        refused(RecurrenceInput { v_shape: vec![4, 4, 8], ..recurrence() }),
        Some(GdnError::ValueTokens)
    );
    assert_eq!(
        refused(RecurrenceInput { v_shape: vec![5, 3, 8], ..recurrence() }),
        Some(GdnError::GroupMapping { nv: 3, nk: 2 })
    );
    assert_eq!(
        refused(RecurrenceInput { slots: vec![0, 1], ..recurrence() }),
        Some(GdnError::BoundsMismatch { bounds: 4, rows: 2 })
    );
    assert_eq!(
        refused(RecurrenceInput { bounds: vec![0, 2, 2, 4], ..recurrence() }),
        Some(GdnError::BoundsTotal { last: 4, total: 5 })
    );
    assert_eq!(
        refused(RecurrenceInput { slots: vec![0, 9, 1], state_rows: 9, ..recurrence() }),
        Some(GdnError::SlotOutOfRange { max: 9, rows: 9 })
    );
}

/// The sequences before an error are run.
#[test]
fn stopped_recurrences() {
    let run = |i: RecurrenceInput| {
        let p = plan_recurrence(&i).ok().unwrap();
        let tokens: Vec<usize> = p.steps.iter().map(|s| s.token).collect();
        (tokens, p.stop)
    };
    assert_eq!(
        run(RecurrenceInput { slots: vec![1, 0, NO_SLOT], ..recurrence() }),
        (vec![0, 1], Some(GdnError::SlotSentinel { seq: 2 }))
    );
    assert_eq!(
        run(RecurrenceInput { bounds: vec![0, 2, 7, 5], ..recurrence() }),
        (vec![0, 1, 2, 3, 4], Some(GdnError::TokenOutOfRange { seq: 1 }))
    );
    assert_eq!(run(recurrence()), (vec![0, 1, 2, 3, 4], None));
}

#[test]
fn refusals_come_before_heads_are_looked_at() {
    let no_heads = vec![5, 0, 4];
    let i = RecurrenceInput { dtype: Dtype::BF16, q_shape: no_heads.clone(), ..recurrence() };
    assert_eq!(plan_recurrence(&i).err(), Some(GdnError::NotF32 { dtype: Dtype::BF16 }));
    let i = RecurrenceInput { snapshots: true, q_shape: no_heads, ..recurrence() };
    assert_eq!(plan_recurrence(&i).err(), Some(GdnError::RecurrentSnapshotsClosed));
}

fn call(is_prefill: bool, is_mtp_verify: bool, tokens: usize, slots: usize) -> GdnCall {
    GdnCall {
        slot_count: slots,
        token_count: tokens,
        is_prefill,
        is_mtp_verify,
        has_bounds: is_prefill,
    }
}

#[test]
fn convolution_paths() {
    let plan = |c: GdnCall| plan_conv(&c, 7, Some(16));
    assert_eq!(plan(call(true, false, 9, 2)), Ok(ConvPath::Prefill { snapshots: None }));
    assert_eq!(
        plan(call(true, true, 9, 2)),
        Ok(ConvPath::Prefill { snapshots: Some(Slice { start: 0, len: 9 }) })
    );
    assert_eq!(plan(call(false, false, 2, 2)), Ok(ConvPath::Decode));
    assert_eq!(plan(call(true, false, 9, 0)), Err(GdnError::NoSlots));
    assert_eq!(
        plan(call(false, false, 3, 2)),
        Err(GdnError::DecodeMismatch { tokens: 3, slots: 2 })
    );
    assert_eq!(
        plan(call(true, true, 17, 2)),
        Err(GdnError::SnapshotTokens { tokens: 17, len: 16 })
    );
    assert_eq!(
        plan_conv(&call(true, true, 9, 2), 7, None),
        Err(GdnError::MissingConvSnapshot { layer: 7 })
    );
}

#[test]
fn recurrence_paths() {
    let grouped = GdnDims::resolve(&HYBRID, &ranks(0, 1)).unwrap();
    let single = HybridConfig { num_v_heads: 4, ..HYBRID };
    let scaled = GdnDims::resolve(&single, &ranks(0, 1)).unwrap();
    assert_eq!(
        plan_recurrence_path(&call(true, false, 9, 2), &grouped),
        RecurrencePath::PrefillGrouped { snapshots: None }
    );
    assert_eq!(
        plan_recurrence_path(&call(true, true, 9, 2), &scaled),
        RecurrencePath::PrefillScaled { snapshots: Some(Slice { start: 0, len: 9 }) }
    );
    assert_eq!(
        plan_recurrence_path(&call(false, false, 2, 2), &grouped),
        RecurrencePath::Decode { batch: 2 }
    );
}

#[test]
fn forward_shapes_keep_the_elements() {
    let d = GdnDims::resolve(&HYBRID, &ranks(0, 2)).unwrap();
    assert_eq!((d.num_k_heads * d.head_k_dim, d.num_v_heads * d.head_v_dim), (32, 128));
    assert_eq!(2 * 6 * 2 * 16 + 6 * 4 * 32, 6 * d.d_conv);
}

#[test]
fn rollbacks() {
    assert_eq!(rollback_conv(7, 0, 3, None), Ok(None));
    assert_eq!(rollback_conv(7, 2, 3, Some(16)), Ok(Some(4)));
    assert_eq!(rollback_conv(7, 2, 3, None), Err(GdnError::MissingConvSnapshot { layer: 7 }));
    assert_eq!(
        rollback_conv(7, 2, usize::MAX, Some(16)),
        Err(GdnError::RollbackOverflow { layer: 7 })
    );
    let range = GdnError::SnapshotRange { index: 4, len: 4, offset: 3, keep: 2 };
    assert_eq!(rollback_conv(7, 2, 3, Some(4)), Err(range));
    assert_eq!(rollback_recurrent(7, 4, 2, 3, Some(5)), Ok(4));
    assert_eq!(rollback_recurrent(7, 4, 2, 3, Some(4)), Err(range));
    assert_eq!(
        rollback_recurrent(7, 4, 2, 3, None),
        Err(GdnError::MissingRecurrentSnapshot { layer: 7 })
    );
}

#[test]
fn verified_tokens_roll_back() {
    let vb = listing("g", false, &[]);
    let cfg = Config { mtp_enabled: true, ..config() };
    let net = GatedDeltaNet::new(&vb, &ranks(0, 1), &cfg, 5, Dtype::BF16).ok().unwrap();
    for keep in 1..=16usize {
        let want = Rollback { index: keep - 1, convert_conv: Some(Dtype::F32) };
        assert_eq!(net.rollback_mtp_verify(keep, Dtype::F32), Ok(Some(want)));
    }
    assert_eq!(net.rollback_mtp_verify(0, Dtype::F32), Ok(None));
    assert_eq!(
        net.rollback_mtp_verify_at(2, 3, Dtype::BF16),
        Ok(Some(Rollback { index: 4, convert_conv: None }))
    );
    assert_eq!(
        net.rollback_mtp_verify_at(2, 15, Dtype::F32),
        Err(GdnError::SnapshotRange { index: 16, len: 16, offset: 15, keep: 2 })
    );
    let plain = GatedDeltaNet::new(&vb, &ranks(0, 1), &config(), 5, Dtype::BF16).ok().unwrap();
    assert_eq!(
        plain.rollback_mtp_verify(1, Dtype::F32),
        Err(GdnError::MissingConvSnapshot { layer: 5 })
    );
}

#[test]
fn a_layer_of_a_checkpoint() {
    let vb = listing("m.gdn", false, &["m.gdn.in_proj_z.weight_scale"]);
    let cfg = Config {
        quant_method: Some("fp8".to_string()),
        mtp_enabled: true,
        mtp_max_verify_tokens: 4,
        output_gate_type: Some("SIGMOID".to_string()),
        ..config()
    };
    let net = GatedDeltaNet::new(&vb, &ranks(1, 2), &cfg, 3, Dtype::BF16).ok().unwrap();
    assert_eq!(net.gdn_layer_idx, 3);
    assert_eq!(net.a_log.name, "m.gdn.A_log");
    assert_eq!(net.a_log.shape, vec![8]);
    assert_eq!(net.a_log.shard, Shard { dim: 0, rank: 1, world_size: 2 });
    assert!(!net.cut_params && net.gate_sigmoid);
    assert_eq!(net.projections.z.path, "m.gdn.in_proj_z");
    assert_eq!(net.projections.z.quant, WeightQuant::AsConfigured);
    assert_eq!(net.projections.b.quant, WeightQuant::Plain);
    assert_eq!(net.projections.chunks, vec![64, 64, 256]);
    assert_eq!(net.out_proj.shard, Shard { dim: 1, rank: 1, world_size: 2 });
    assert_eq!((net.out_proj.in_dim, net.out_proj.out_dim), (256, 64));
    assert_eq!(net.conv_weight_name, "m.gdn.conv1d.weight");
    assert!(net.conv_bias.optional && !net.norm_weight.optional);
    assert_eq!(net.snapshots, Some((vec![16, 192, 3], vec![16, 4, 16, 32])));
    let odd = Config { hybrid: HybridConfig { num_v_heads: 6, ..HYBRID }, ..config() };
    assert_eq!(
        GatedDeltaNet::new(&vb, &ranks(0, 1), &odd, 0, Dtype::BF16).err(),
        Some(GdnError::HeadGroups { num_v_heads: 6, num_k_heads: 4 })
    );
}

#[test]
fn a_layer_of_a_quantized_file() {
    let vb = listing("blk.0", true, &[]);
    let net = GatedDeltaNet::new(&vb, &ranks(0, 1), &config(), 0, Dtype::BF16).ok().unwrap();
    assert_eq!(net.a_log.name, "blk.0.ssm_a");
    assert_eq!(net.projections.qkv.path, "blk.0.attn_qkv");
    assert_eq!(net.out_proj.path, "blk.0.ssm_out");
    assert!(net.cut_params && net.snapshots.is_none());
    assert_eq!(net.types.model_dtype, Dtype::F32);
}

#[test]
fn forward_passes() {
    let vb = listing("g", false, &[]);
    let cfg = Config { is_f16_mode: true, ..config() };
    let net = GatedDeltaNet::new(&vb, &ranks(0, 1), &cfg, 0, Dtype::F16).ok().unwrap();
    let columns = ConvSlices {
        q: Slice { start: 0, len: 64 },
        k: Slice { start: 64, len: 64 },
        v: Slice { start: 128, len: 256 },
    };
    let legacy = ProjectionKind::SplitQkvZaLegacy;
    assert_eq!(
        net.plan_forward(&call(true, false, 9, 2), legacy, Dtype::BF16).unwrap(),
        vec![
            GdnStep::ConvertInput(Dtype::F16),
            GdnStep::Project(legacy),
            GdnStep::CutQkv(columns),
            GdnStep::ConvertProjected(Dtype::F32),
            GdnStep::JoinColumns,
            GdnStep::GatherConvState,
            GdnStep::ConvolveGathered { snapshots: None, silu: true },
            GdnStep::StoreConvState,
            GdnStep::CutColumns(columns),
            GdnStep::Gates((9, 8)),
            GdnStep::Shape { qk: (9, 4, 16), v: (9, 8, 32) },
            GdnStep::UnitQk { eps: 1e-6f64.to_bits() },
            GdnStep::Recur(RecurrencePath::PrefillGrouped { snapshots: None }),
            GdnStep::Flatten((9, 256)),
            GdnStep::GatedNorm { eps: EPS, sigmoid: false, group: 32 },
            GdnStep::ConvertGated(Dtype::F16),
            GdnStep::ProjectOutput,
            GdnStep::ConvertBack(Dtype::BF16)
        ]
    );
    assert_eq!(
        net.plan_forward(&call(false, false, 3, 2), legacy, Dtype::F16).err(),
        Some(GdnError::DecodeMismatch { tokens: 3, slots: 2 })
    );
}

#[test]
fn decode_steps_stay_in_place() {
    let vb = listing("g", false, &[]);
    let net = GatedDeltaNet::new(&vb, &ranks(0, 1), &config(), 0, Dtype::F32).ok().unwrap();
    let fused = ProjectionKind::FusedQkvzBa;
    let steps = net.plan_forward(&call(false, false, 2, 2), fused, Dtype::F32).unwrap();
    assert_eq!(steps[2], GdnStep::CutFused(net.dims.fused_split()));
    assert_eq!(steps[5], GdnStep::ConvolveInPlace { silu: true });
    assert_eq!(steps[10], GdnStep::Recur(RecurrencePath::Decode { batch: 2 }));
    assert!(!steps.contains(&GdnStep::GatherConvState) && !steps.contains(&GdnStep::ScaleQueries));
    let merged = ProjectionKind::SplitQkvZaMerged;
    let steps = net.plan_forward(&call(false, false, 2, 2), merged, Dtype::F32).unwrap();
    assert_eq!(steps[2], GdnStep::TakeChunks);
}

/// Where every value head has its own key head, queries are scaled before the recurrence.
#[test]
fn queries_are_scaled_before_the_recurrence() {
    let vb = listing("g", false, &[]);
    let cfg = Config { hybrid: HybridConfig { num_v_heads: 4, ..HYBRID }, ..config() };
    let net = GatedDeltaNet::new(&vb, &ranks(0, 1), &cfg, 0, Dtype::F32).ok().unwrap();
    let merged = ProjectionKind::SplitQkvZaMerged;
    let steps = net.plan_forward(&call(true, false, 9, 2), merged, Dtype::F32).unwrap();
    assert_eq!(steps[11], GdnStep::UnitQk { eps: 1e-6f64.to_bits() });
    assert_eq!(steps[12], GdnStep::ScaleQueries);
    assert_eq!(steps[13], GdnStep::Recur(RecurrencePath::PrefillScaled { snapshots: None }));
}

#[test]
fn gdn_steps_convert_what_differs() {
    let (f16, f32) = (Dtype::F16, Dtype::F32);
    assert_eq!(GdnStep::ConvertInput(f16).convert(f32), Some(f16));
    assert_eq!(GdnStep::ConvertProjected(f32).convert(f32), None);
    assert_eq!(GdnStep::ConvertGated(f32).convert(f32), Some(f32));
    assert_eq!(GdnStep::ConvertBack(f16).convert(f16), None);
    assert_eq!(GdnStep::Project(ProjectionKind::FusedQkvzBa).convert(f32), None);
}

/// A verification needs the snapshot buffers of its own layer.
#[test]
fn verifying_forward_passes() {
    let vb = listing("g", false, &[]);
    let verify = |net: &GatedDeltaNet, tokens: usize| {
        let merged = ProjectionKind::SplitQkvZaMerged;
        net.plan_forward(&call(true, true, tokens, 2), merged, Dtype::F32)
            .map(|steps| (steps[6], steps[12]))
    };
    let plain = GatedDeltaNet::new(&vb, &ranks(0, 1), &config(), 4, Dtype::F32).ok().unwrap();
    assert_eq!(verify(&plain, 9), Err(GdnError::MissingConvSnapshot { layer: 4 }));
    let cfg = Config { mtp_enabled: true, ..config() };
    let net = GatedDeltaNet::new(&vb, &ranks(0, 1), &cfg, 4, Dtype::F32).ok().unwrap();
    let snapshots = Some(Slice { start: 0, len: 9 });
    assert_eq!(
        verify(&net, 9),
        Ok((
            GdnStep::ConvolveGathered { snapshots, silu: true },
            GdnStep::Recur(RecurrencePath::PrefillGrouped { snapshots })
        ))
    );
    assert_eq!(verify(&net, 17), Err(GdnError::SnapshotTokens { tokens: 17, len: 16 }));
}
