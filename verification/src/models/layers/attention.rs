//! Attention: how the projections are requested and cut, which norms and
//! conversions a forward pass applies, and how queries meet cached keys.

use super::deltanet::{self, convert_to};
use super::distributed::{
    self, kv_head_shard, Comm, HeadShardError, ReplicatedLinear, TensorParallelColumnLinear,
    TensorParallelRowLinear,
};
use super::linear::Slice;
use super::others::{self, rms_norm, rms_norm_sharded, NormX};
use super::tensor::Shard;
use super::var_builder::{ModuleAt, VarBuilderX};
use crate::config::Config;
use crate::dtype::Dtype;
use crate::text;
use crate::utils;
use vstd::prelude::*;

verus! {

/// What the layer refuses.
#[derive(Debug, Clone, Copy, PartialEq, Eq, Structural)]
pub enum AttentionError {
    /// KV heads do not divide over the ranks.
    Heads(HeadShardError),
    /// A packed FP8 projection without block sizes.
    NoBlockSize,
    /// Block sizes that are not a pair.
    BlockSizePair,
    /// An unquantized weight of a packed projection that is not there.
    NoWeight { part: QkvPart },
    /// A tensor of two dimensions cut along a third one.
    ShardDim { dim: usize },
    /// A tensor that is neither one part nor whole.
    ShardShape { got: usize, local: usize, global: usize },
    /// A packed projection gives queries, keys and values.
    PackedOutputs { got: usize },
    /// A gated projection is twice as long as the queries.
    GatedDim { expected: usize, got: usize },
    /// Neither a decode step nor a prefill with a cache.
    NoCachePath,
    /// A sequence beyond the tokens.
    TokenRange { seq: usize },
    /// A query head without a KV head.
    KvHeadRange { head: usize },
}

/// The architectures whose norm weights count from one.
pub open spec fn is_gemma_arch(arch: Seq<char>) -> bool {
    arch == "Gemma3ForConditionalGeneration"@ || arch == "Gemma3ForCausalLM"@
}

/// The architectures that normalize values.
pub open spec fn is_gemma4_arch(arch: Seq<char>) -> bool {
    arch == "Gemma4ForConditionalGeneration"@ || arch == "Gemma4ForCausalLM"@
}

/// The first of two settings that is given, or a default.
pub open spec fn setting(a: Option<bool>, b: Option<bool>, default: bool) -> bool {
    match a {
        Some(v) => v,
        None => match b {
            Some(v) => v,
            None => default,
        },
    }
}

fn choose_setting(a: Option<bool>, b: Option<bool>, default: bool) -> (r: bool)
    ensures
        r == setting(a, b, default),
{
    match a {
        Some(v) => v,
        None => match b {
            Some(v) => v,
            None => default,
        },
    }
}

/// The layer as it is loaded on a rank.
pub struct AttentionPlan {
    /// The module of the layer.
    pub path: String,
    pub head_dim: usize,
    pub attention_bias: bool,
    pub attn_output_gate: bool,
    /// Output lengths for all ranks together.
    pub q_out_dim: usize,
    pub kv_out_dim: usize,
    pub o_in_dim: usize,
    /// Heads on this rank.
    pub num_heads: usize,
    pub num_kv_heads: usize,
    pub q_shard: Shard,
    pub kv_shard: Shard,
    pub qk_norm_add_one: bool,
    pub norm_dtype: Dtype,
    /// What the norms add below their roots, as the bits of a double.
    pub norm_eps: u64,
    /// The same of the norm of values, where there is one.
    pub v_norm_eps: Option<u64>,
    pub promote_qk_to_f32: bool,
    pub qk_l2_norm: bool,
    pub sliding_window: Option<usize>,
    pub is_qvar_builder: bool,
    pub dtype: Dtype,
    pub names: AttentionNames,
}

/// The names of the layer's parts.
pub struct AttentionNames {
    pub q: &'static str,
    pub k: &'static str,
    pub v: &'static str,
    pub o: &'static str,
    pub q_norm: &'static str,
    pub k_norm: &'static str,
}

impl AttentionNames {
    /// The names in a checkpoint, or in a quantized single file. With equal keys
    /// and values the values are loaded from the keys.
    pub open spec fn are(&self, is_qvar_builder: bool, k_eq_v: bool) -> bool {
        if is_qvar_builder {
            &&& self.q@ == "attn_q"@
            &&& self.k@ == "attn_k"@
            &&& self.v@ == if k_eq_v {
                "attn_k"@
            } else {
                "attn_v"@
            }
            &&& self.o@ == "attn_output"@
            &&& self.q_norm@ == "attn_q_norm"@
            &&& self.k_norm@ == "attn_k_norm"@
        } else {
            &&& self.q@ == "q_proj"@
            &&& self.k@ == "k_proj"@
            &&& self.v@ == if k_eq_v {
                "k_proj"@
            } else {
                "v_proj"@
            }
            &&& self.o@ == "o_proj"@
            &&& self.q_norm@ == "q_norm"@
            &&& self.k_norm@ == "k_norm"@
        }
    }
}

fn attention_names(is_qvar_builder: bool, k_eq_v: bool) -> (r: AttentionNames)
    ensures
        r.are(is_qvar_builder, k_eq_v),
{
    if is_qvar_builder {
        AttentionNames {
            q: "attn_q",
            k: "attn_k",
            v: if k_eq_v {
                "attn_k"
            } else {
                "attn_v"
            },
            o: "attn_output",
            q_norm: "attn_q_norm",
            k_norm: "attn_k_norm",
        }
    } else {
        AttentionNames {
            q: "q_proj",
            k: "k_proj",
            v: if k_eq_v {
                "k_proj"
            } else {
                "v_proj"
            },
            o: "o_proj",
            q_norm: "q_norm",
            k_norm: "k_norm",
        }
    }
}

/// The length of a head.
pub open spec fn head_len(c: Config) -> int {
    match c.head_dim {
        Some(d) => d as int,
        None => c.hidden_size as int / c.num_attention_heads as int,
    }
}

/// Whether the output is gated.
pub open spec fn is_gated(c: Config) -> bool {
    setting(c.attn_output_gate, None, utils::is_hybrid_arch(c.architecture@))
}

/// Whether the projections have biases.
pub open spec fn is_biased(c: Config) -> bool {
    setting(c.qkv_bias, c.attention_bias, !utils::is_hybrid_arch(c.architecture@))
}

/// The length of the queries of all ranks, with their gates where they are gated.
pub open spec fn query_len(c: Config) -> int {
    c.num_attention_heads * head_len(c) * (if is_gated(c) {
        2int
    } else {
        1
    })
}

/// What machine limits and divisions ask of the settings of a layer.
pub open spec fn fits_attention(c: Config, comm: Comm) -> bool {
    &&& comm.world_size > 0
    &&& c.num_attention_heads > 0
    &&& query_len(c) <= usize::MAX
    &&& c.num_key_value_heads as int % comm.world_size as int == 0 ==> c.num_key_value_heads
        * head_len(c) <= usize::MAX
}

/// Why a rank refuses a layer: its KV heads do not divide.
pub open spec fn attention_refusal(c: Config, comm: Comm) -> Option<AttentionError> {
    if c.num_key_value_heads as int % comm.world_size as int != 0 {
        Some(
            AttentionError::Heads(
                HeadShardError {
                    num_kv_heads: c.num_key_value_heads,
                    world_size: comm.world_size,
                },
            ),
        )
    } else {
        None
    }
}

/// `p` is the layer of module `vb` that the settings describe, on a rank whose heads
/// divide.
pub open spec fn is_attention_plan(
    c: Config,
    vb: ModuleAt,
    comm: Comm,
    sliding_window: Option<usize>,
    k_eq_v: bool,
    qk_l2_norm: bool,
    dtype: Dtype,
    p: AttentionPlan,
) -> bool {
    let arch = c.architecture@;
    let own = Shard { dim: 0, rank: comm.rank, world_size: comm.world_size };
    &&& p.path@ == vb.path
    &&& p.head_dim == head_len(c)
    &&& p.attention_bias == is_biased(c)
    &&& p.attn_output_gate == is_gated(c)
    &&& p.q_out_dim == query_len(c)
    &&& p.kv_out_dim == c.num_key_value_heads * head_len(c)
    &&& p.o_in_dim == c.num_attention_heads * head_len(c)
    &&& p.num_heads == c.num_attention_heads as int / comm.world_size as int
    &&& p.num_kv_heads == c.num_key_value_heads as int / comm.world_size as int
    &&& p.q_shard == own
    &&& p.kv_shard == own
    &&& p.qk_norm_add_one == (is_gemma_arch(arch) || (utils::is_hybrid_arch(arch) && !vb.is_gguf
        && !c.is_mlx_nvfp4))
    &&& p.norm_dtype == if vb.is_gguf || c.quantizes_on_load || c.quant_method is Some
        || c.is_f16_mode {
        Dtype::F32
    } else {
        dtype
    }
    &&& p.norm_eps == c.rms_norm_eps
    &&& p.v_norm_eps == if is_gemma4_arch(arch) {
        Some(c.rms_norm_eps)
    } else {
        None
    }
    &&& p.promote_qk_to_f32 == (vb.is_gguf || c.higher_precision_required || qk_l2_norm)
    &&& p.qk_l2_norm == qk_l2_norm
    &&& p.sliding_window == sliding_window
    &&& p.is_qvar_builder == vb.is_gguf
    &&& p.dtype == dtype
    &&& p.names.are(vb.is_gguf, k_eq_v)
}

/// Resolves the layer for a rank.
pub fn plan_attention(
    vb: &VarBuilderX,
    comm: &Comm,
    c: &Config,
    sliding_window: Option<usize>,
    k_eq_v: bool,
    qk_l2_norm: bool,
    dtype: Dtype,
) -> (r: Result<AttentionPlan, AttentionError>)
    requires
        fits_attention(*c, *comm),
    ensures
        match r {
            Ok(p) => attention_refusal(*c, *comm) is None && is_attention_plan(
                *c,
                vb@,
                *comm,
                sliding_window,
                k_eq_v,
                qk_l2_norm,
                dtype,
                p,
            ),
            Err(e) => attention_refusal(*c, *comm) == Some(e),
        },
{
    let is_qvar_builder: bool = vb.is_qvar_builder();
    let head_dim: usize = match c.head_dim {
        Some(d) => d,
        None => c.hidden_size / c.num_attention_heads,
    };
    let arch: &str = c.architecture.as_str();
    let is_hybrid: bool = utils::is_qwen3_hybrid_arch_name(arch);
    let attention_bias: bool = choose_setting(c.qkv_bias, c.attention_bias, !is_hybrid);
    let attn_output_gate: bool = choose_setting(c.attn_output_gate, None, is_hybrid);
    proof {
        assert(c.num_attention_heads * head_dim >= 0) by (nonlinear_arith);
        assert(c.num_key_value_heads * head_dim >= 0) by (nonlinear_arith);
    }
    let o_in_dim: usize = c.num_attention_heads * head_dim;
    let q_out_dim: usize = if attn_output_gate {
        o_in_dim * 2
    } else {
        o_in_dim
    };
    let is_gemma: bool = text::same_text(arch, "Gemma3ForConditionalGeneration")
        || text::same_text(arch, "Gemma3ForCausalLM");
    let is_gemma4: bool = text::same_text(arch, "Gemma4ForConditionalGeneration")
        || text::same_text(arch, "Gemma4ForCausalLM");
    let qk_norm_add_one: bool = is_gemma || (is_hybrid && !is_qvar_builder && !c.is_mlx_nvfp4);
    let (num_kv_heads, kv_shard): (usize, Shard) = match kv_head_shard(
        c.num_key_value_heads,
        comm.rank,
        comm.world_size,
    ) {
        Ok(v) => v,
        Err(e) => {
            return Err(AttentionError::Heads(e));
        },
    };
    let norm_dtype: Dtype = if is_qvar_builder || c.quantizes_on_load || c.quant_method.is_some()
        || c.is_f16_mode {
        Dtype::F32
    } else {
        dtype
    };
    Ok(
        AttentionPlan {
            path: text::copy(vb.path()),
            head_dim,
            attention_bias,
            attn_output_gate,
            q_out_dim,
            kv_out_dim: c.num_key_value_heads * head_dim,
            o_in_dim,
            num_heads: c.num_attention_heads / comm.world_size,
            num_kv_heads,
            q_shard: Shard { dim: 0, rank: comm.rank, world_size: comm.world_size },
            kv_shard,
            qk_norm_add_one,
            norm_dtype,
            norm_eps: c.rms_norm_eps,
            v_norm_eps: if is_gemma4 {
                Some(c.rms_norm_eps)
            } else {
                None
            },
            promote_qk_to_f32: is_qvar_builder || c.higher_precision_required || qk_l2_norm,
            qk_l2_norm,
            sliding_window,
            is_qvar_builder,
            dtype,
            names: attention_names(is_qvar_builder, k_eq_v),
        },
    )
}

/// The three projections of queries, keys and values, and the last one.
pub struct SeparateProjections {
    pub q: TensorParallelColumnLinear,
    pub k: TensorParallelColumnLinear,
    pub v: TensorParallelColumnLinear,
    pub o: TensorParallelRowLinear,
}

/// The norms of queries and keys.
pub struct QkNorms {
    pub q_path: String,
    pub q: NormX,
    pub k_path: String,
    pub k: NormX,
}

impl AttentionPlan {
    /// The separate projections below a module.
    pub fn separate(
        &self,
        vb: &VarBuilderX,
        comm: &Comm,
        hidden_size: usize,
        quant_method: Option<&str>,
        skip_module: bool,
        dtype: Dtype,
    ) -> (r: SeparateProjections)
        requires
            distributed::is_dense(vb, quant_method, skip_module),
        ensures
            r.q.path@ == vb.name_of(self.names.q@),
            r.q.inner.is_plain(
                hidden_size,
                self.q_out_dim,
                (Shard { dim: 0, rank: comm.rank, world_size: comm.world_size }),
                dtype,
                false,
            ),
            r.k.path@ == vb.name_of(self.names.k@),
            r.k.inner.is_plain(hidden_size, self.kv_out_dim, self.kv_shard, dtype, false),
            r.v.path@ == vb.name_of(self.names.v@),
            r.v.inner.is_plain(hidden_size, self.kv_out_dim, self.kv_shard, dtype, false),
            r.o.path@ == vb.name_of(self.names.o@),
            r.o.inner.is_plain(
                self.o_in_dim,
                hidden_size,
                (Shard { dim: 1, rank: comm.rank, world_size: comm.world_size }),
                dtype,
                false,
            ),
            r.o.comm == *comm,
    {
        let q_vb: VarBuilderX = vb.pp(self.names.q);
        let k_vb: VarBuilderX = vb.pp(self.names.k);
        let v_vb: VarBuilderX = vb.pp(self.names.v);
        let o_vb: VarBuilderX = vb.pp(self.names.o);
        SeparateProjections {
            q: TensorParallelColumnLinear::load_with_hints(
                hidden_size,
                self.q_out_dim,
                self.attention_bias,
                &q_vb,
                comm,
                quant_method,
                skip_module,
                dtype,
            ),
            k: TensorParallelColumnLinear::load_with_shard(
                hidden_size,
                self.kv_out_dim,
                self.attention_bias,
                &k_vb,
                self.kv_shard,
                quant_method,
                skip_module,
                dtype,
            ),
            v: TensorParallelColumnLinear::load_with_shard(
                hidden_size,
                self.kv_out_dim,
                self.attention_bias,
                &v_vb,
                self.kv_shard,
                quant_method,
                skip_module,
                dtype,
            ),
            o: TensorParallelRowLinear::load_with_hints(
                self.o_in_dim,
                hidden_size,
                &o_vb,
                comm,
                quant_method,
                skip_module,
                dtype,
            ),
        }
    }

    /// The norms of queries and keys that are tried: first one weight per head
    /// channel, whole; then, with `full`, one per channel of all heads, in the parts
    /// of the rank.
    pub fn qk_norms(&self, vb: &VarBuilderX, full: bool) -> (r: QkNorms)
        ensures
            r.q_path@ == vb.name_of(self.names.q_norm@),
            r.k_path@ == vb.name_of(self.names.k_norm@),
            r.q == others::rms_plan(
                vb.is_gguf,
                if full {
                    self.o_in_dim
                } else {
                    self.head_dim
                },
                self.norm_eps,
                self.norm_dtype,
                if full {
                    self.q_shard
                } else {
                    others::unsplit()
                },
                self.qk_norm_add_one,
            ),
            r.k == others::rms_plan(
                vb.is_gguf,
                if full {
                    self.kv_out_dim
                } else {
                    self.head_dim
                },
                self.norm_eps,
                self.norm_dtype,
                if full {
                    self.kv_shard
                } else {
                    others::unsplit()
                },
                self.qk_norm_add_one,
            ),
    {
        let q_path: String = vb.full_name(self.names.q_norm);
        let k_path: String = vb.full_name(self.names.k_norm);
        if full {
            QkNorms {
                q_path,
                q: rms_norm_sharded(
                    self.o_in_dim,
                    self.norm_eps,
                    vb,
                    self.norm_dtype,
                    self.qk_norm_add_one,
                    self.q_shard,
                ),
                k_path,
                k: rms_norm_sharded(
                    self.kv_out_dim,
                    self.norm_eps,
                    vb,
                    self.norm_dtype,
                    self.qk_norm_add_one,
                    self.kv_shard,
                ),
            }
        } else {
            QkNorms {
                q_path,
                q: rms_norm(
                    self.head_dim,
                    self.norm_eps,
                    vb,
                    self.norm_dtype,
                    self.qk_norm_add_one,
                ),
                k_path,
                k: rms_norm(
                    self.head_dim,
                    self.norm_eps,
                    vb,
                    self.norm_dtype,
                    self.qk_norm_add_one,
                ),
            }
        }
    }
}

/// Which norms queries and keys get.
#[derive(Debug, Clone, Copy, PartialEq, Eq, Structural)]
pub enum QkNorm {
    /// One weight per head channel.
    PerHead,
    /// One weight per channel of all heads.
    FullDim,
    Absent,
}

/// The norms of the pairs that were found.
pub open spec fn found_norm(per_head: (bool, bool), full: (bool, bool)) -> QkNorm {
    if per_head.0 && per_head.1 {
        QkNorm::PerHead
    } else if full.0 && full.1 {
        QkNorm::FullDim
    } else {
        QkNorm::Absent
    }
}

/// The norms after the per head weights were tried and, where one was missing,
/// the full ones: a pair is needed.
pub fn qk_norm_of(per_head: (bool, bool), full: (bool, bool)) -> (r: QkNorm)
    ensures
        r == found_norm(per_head, full),
{
    if per_head.0 && per_head.1 {
        QkNorm::PerHead
    } else if full.0 && full.1 {
        QkNorm::FullDim
    } else {
        QkNorm::Absent
    }
}

/// How queries, keys and values are loaded in one projection.
#[derive(Debug, Clone, Copy, PartialEq, Eq, Structural)]
pub enum PackedRoute {
    /// Not at all: three projections.
    Separate,
    /// In blocks of 8 bit floats.
    Fp8 { by: usize, bx: usize },
    /// Unquantized.
    Dense,
}

/// How queries, keys and values are loaded: in one projection unless they are
/// quantized otherwise than in blocks of 8 bit floats.
pub fn packed_route(
    is_qvar_builder: bool,
    has_quant: bool,
    quant_method: Option<&str>,
    weight_block_size: Option<&Vec<usize>>,
) -> (r: Result<PackedRoute, AttentionError>)
    ensures
        r == packed_answer(is_qvar_builder, has_quant, quant_method, weight_block_size),
{
    if is_qvar_builder || has_quant {
        return Ok(PackedRoute::Separate);
    }
    match quant_method {
        None => Ok(PackedRoute::Dense),
        Some(m) => {
            if !text::same_text(m, "fp8") {
                return Ok(PackedRoute::Separate);
            }
            match weight_block_size {
                None => Err(AttentionError::NoBlockSize),
                Some(b) => {
                    if b.len() != 2 {
                        Err(AttentionError::BlockSizePair)
                    } else {
                        Ok(PackedRoute::Fp8 { by: b[0], bx: b[1] })
                    }
                },
            }
        },
    }
}

/// The answer of [`packed_route`].
pub open spec fn packed_answer(
    is_qvar_builder: bool,
    has_quant: bool,
    quant_method: Option<&str>,
    weight_block_size: Option<&Vec<usize>>,
) -> Result<PackedRoute, AttentionError> {
    if is_qvar_builder || has_quant {
        Ok(PackedRoute::Separate)
    } else {
        match quant_method {
            None => Ok(PackedRoute::Dense),
            Some(m) => if m@ != "fp8"@ {
                Ok(PackedRoute::Separate)
            } else {
                match weight_block_size {
                    None => Err(AttentionError::NoBlockSize),
                    Some(b) => if b@.len() != 2 {
                        Err(AttentionError::BlockSizePair)
                    } else {
                        Ok(PackedRoute::Fp8 { by: b@[0], bx: b@[1] })
                    },
                }
            },
        }
    }
}

/// `n` divided by `d`, rounded up.
pub open spec fn ceil_div(n: int, d: int) -> int {
    (n + d - 1) / d
}

fn ceil_div_exec(n: usize, d: usize) -> (r: usize)
    requires
        d > 0,
    ensures
        r == ceil_div(n as int, d as int),
{
    let q: usize = n / d;
    proof {
        lemma_ceil(n as int, d as int);
    }
    if n % d > 0 {
        q + 1
    } else {
        q
    }
}

pub proof fn lemma_ceil(n: int, d: int)
    by (nonlinear_arith)
    requires
        n >= 0,
        d > 0,
    ensures
        n % d > 0 ==> ceil_div(n, d) == n / d + 1 && n / d + 1 <= n,
        n % d == 0 ==> ceil_div(n, d) == n / d,
        n % d >= 0,
{
    let q = n / d;
    let r = n % d;
    assert(n == q * d + r);
    if r > 0 {
        assert(n + d - 1 == (q + 1) * d + (r - 1));
        assert((n + d - 1) / d == q + 1);
        assert(q <= q * d);
    } else {
        assert(n + d - 1 == q * d + (d - 1));
        assert((n + d - 1) / d == q);
    }
}

/// The shape of the scales of a weight in blocks: one per started block.
pub fn fp8_scale_shape(out_dim: usize, in_dim: usize, by: usize, bx: usize) -> (r: (usize, usize))
    requires
        by > 0,
        bx > 0,
    ensures
        r.0 == ceil_div(out_dim as int, by as int),
        r.1 == ceil_div(in_dim as int, bx as int),
{
    (ceil_div_exec(out_dim, by), ceil_div_exec(in_dim, bx))
}

/// Whether the parts of a rank start at block bounds: the queries, the keys behind
/// all queries, and the values behind all keys.
pub fn fp8_blocks_align(
    q_out_dim: usize,
    kv_out_dim: usize,
    q_rank: usize,
    kv_rank: usize,
    local_q: usize,
    local_k: usize,
    local_v: usize,
    by: usize,
) -> (r: bool)
    requires
        by > 0,
        q_rank * local_q <= usize::MAX,
        q_out_dim + kv_rank * local_k <= usize::MAX,
        q_out_dim + kv_out_dim + kv_rank * local_v <= usize::MAX,
    ensures
        r == ((q_rank * local_q) % (by as int) == 0 && (q_out_dim + kv_rank * local_k) % (by as int)
            == 0 && (q_out_dim + kv_out_dim + kv_rank * local_v) % (by as int) == 0),
{
    proof {
        assert(q_rank * local_q >= 0) by (nonlinear_arith);
        assert(kv_rank * local_k >= 0) by (nonlinear_arith);
        assert(kv_rank * local_v >= 0) by (nonlinear_arith);
    }
    let q_start: usize = q_rank * local_q;
    let k_start: usize = q_out_dim + kv_rank * local_k;
    let v_start: usize = q_out_dim + kv_out_dim + kv_rank * local_v;
    q_start % by == 0 && k_start % by == 0 && v_start % by == 0
}

/// The biases of a packed projection.
#[derive(Debug, Clone, Copy, PartialEq, Eq, Structural)]
pub enum PackedBias {
    Without,
    With,
    /// Some are there and some not: three projections after all.
    NotPacked,
}

/// The biases of a packed projection: all three or none.
pub fn packed_bias(attention_bias: bool, q: bool, k: bool, v: bool) -> (r: PackedBias)
    ensures
        r == if !attention_bias || (!q && !k && !v) {
            PackedBias::Without
        } else if q && k && v {
            PackedBias::With
        } else {
            PackedBias::NotPacked
        },
{
    if !attention_bias {
        return PackedBias::Without;
    }
    if q && k && v {
        PackedBias::With
    } else if !q && !k && !v {
        PackedBias::Without
    } else {
        PackedBias::NotPacked
    }
}

/// A packed projection: the rows of queries, keys and values, and whether it has
/// biases.
pub struct PackedQkv {
    pub splits: Vec<usize>,
    pub with_bias: bool,
}

/// A part of a packed projection.
#[derive(Debug, Clone, Copy, PartialEq, Eq, Structural)]
pub enum QkvPart {
    Q,
    K,
    V,
}

/// What was loaded for a packed projection: the rows of each weight on this rank,
/// or nothing where a weight was not found, and whether each bias was found.
#[derive(Debug, Clone, Copy, PartialEq, Eq, Structural)]
pub struct PackedParts {
    pub q: Option<usize>,
    pub k: Option<usize>,
    pub v: Option<usize>,
    pub q_bias: bool,
    pub k_bias: bool,
    pub v_bias: bool,
}

impl PackedParts {
    /// Nothing is loaded.
    pub open spec fn nothing() -> Self {
        PackedParts { q: None, k: None, v: None, q_bias: false, k_bias: false, v_bias: false }
    }

    /// All weights were found.
    pub open spec fn all_weights(&self) -> bool {
        self.q is Some && self.k is Some && self.v is Some
    }

    /// The first weight that was not found.
    pub open spec fn missing(&self) -> Option<QkvPart> {
        if self.q is None {
            Some(QkvPart::Q)
        } else if self.k is None {
            Some(QkvPart::K)
        } else if self.v is None {
            Some(QkvPart::V)
        } else {
            None
        }
    }

    /// The same with a weight that was looked for.
    pub open spec fn with_weight(self, part: QkvPart, rows: Option<usize>) -> Self {
        match part {
            QkvPart::Q => PackedParts { q: rows, ..self },
            QkvPart::K => PackedParts { k: rows, ..self },
            QkvPart::V => PackedParts { v: rows, ..self },
        }
    }

    /// The same with a bias that was looked for.
    pub open spec fn with_bias(self, part: QkvPart, found: bool) -> Self {
        match part {
            QkvPart::Q => PackedParts { q_bias: found, ..self },
            QkvPart::K => PackedParts { k_bias: found, ..self },
            QkvPart::V => PackedParts { v_bias: found, ..self },
        }
    }
}

/// Why a projection is not packed and nothing else is loaded in its place: an
/// unquantized weight is not there.
pub open spec fn packed_refusal(route: PackedRoute, parts: PackedParts) -> Option<AttentionError> {
    match (route, parts.missing()) {
        (PackedRoute::Dense, Some(part)) => Some(AttentionError::NoWeight { part }),
        _ => None,
    }
}

/// Whether the parts of a rank start at the bounds of blocks with `by` rows.
pub open spec fn blocks_align(p: AttentionPlan, parts: PackedParts, by: int) -> bool {
    &&& (p.q_shard.rank * parts.q->0) % by == 0
    &&& (p.q_out_dim + p.kv_shard.rank * parts.k->0) % by == 0
    &&& (p.q_out_dim + p.kv_out_dim + p.kv_shard.rank * parts.v->0) % by == 0
}

impl AttentionPlan {
    /// All weights were found and no block of them is torn.
    pub open spec fn weights_pack(&self, route: PackedRoute, parts: PackedParts) -> bool {
        match route {
            PackedRoute::Separate => false,
            PackedRoute::Dense => parts.all_weights(),
            PackedRoute::Fp8 { by, .. } => parts.all_weights() && blocks_align(
                *self,
                parts,
                by as int,
            ),
        }
    }

    /// Whether queries, keys and values are packed: the route packs them, all
    /// weights were found, blocks are not torn, and biases are not mixed.
    pub open spec fn packs(&self, route: PackedRoute, parts: PackedParts) -> bool {
        &&& self.weights_pack(route, parts)
        &&& self.attention_bias ==> parts.q_bias == parts.k_bias && parts.k_bias == parts.v_bias
    }

    /// What machine limits and divisions ask of weights in blocks.
    pub open spec fn fits_blocks(&self, route: PackedRoute, parts: PackedParts) -> bool {
        route matches PackedRoute::Fp8 { by, .. } ==> parts.all_weights() ==> {
            &&& by > 0
            &&& self.q_shard.rank * parts.q->0 <= usize::MAX
            &&& self.q_out_dim + self.kv_shard.rank * parts.k->0 <= usize::MAX
            &&& self.q_out_dim + self.kv_out_dim + self.kv_shard.rank * parts.v->0 <= usize::MAX
        }
    }

    /// `p` is the packed projection of the parts.
    pub open spec fn is_packed(&self, parts: PackedParts, p: PackedQkv) -> bool {
        &&& p.splits@ == seq![parts.q->0, parts.k->0, parts.v->0]
        &&& p.with_bias == (self.attention_bias && parts.q_bias)
    }

    /// Whether the found weights can be packed.
    fn check_weights(&self, route: PackedRoute, parts: &PackedParts) -> (r: bool)
        requires
            self.fits_blocks(route, *parts),
        ensures
            r == self.weights_pack(route, *parts),
    {
        let (q, k, v): (usize, usize, usize) = match (parts.q, parts.k, parts.v) {
            (Some(q), Some(k), Some(v)) => (q, k, v),
            _ => {
                return false;
            },
        };
        match route {
            PackedRoute::Separate => false,
            PackedRoute::Dense => true,
            PackedRoute::Fp8 { by, .. } => fp8_blocks_align(
                self.q_out_dim,
                self.kv_out_dim,
                self.q_shard.rank,
                self.kv_shard.rank,
                q,
                k,
                v,
                by,
            ),
        }
    }

    /// The packed projection of what was loaded; none where three projections are
    /// loaded instead. An unquantized weight that was not found is an error.
    pub fn packed_qkv(&self, route: PackedRoute, parts: &PackedParts) -> (r: Result<
        Option<PackedQkv>,
        AttentionError,
    >)
        requires
            self.fits_blocks(route, *parts),
        ensures
            match r {
                Ok(Some(p)) => self.packs(route, *parts) && self.is_packed(*parts, p),
                Ok(None) => packed_refusal(route, *parts) is None && !self.packs(route, *parts),
                Err(e) => packed_refusal(route, *parts) == Some(e),
            },
    {
        let (q, k, v): (usize, usize, usize) = match (parts.q, parts.k, parts.v) {
            (Some(q), Some(k), Some(v)) => (q, k, v),
            (q, k, _) => {
                let part: QkvPart = if q.is_none() {
                    QkvPart::Q
                } else if k.is_none() {
                    QkvPart::K
                } else {
                    QkvPart::V
                };
                return match route {
                    PackedRoute::Dense => Err(AttentionError::NoWeight { part }),
                    _ => Ok(None),
                };
            },
        };
        if !self.check_weights(route, parts) {
            return Ok(None);
        }
        let with_bias: bool = match packed_bias(
            self.attention_bias,
            parts.q_bias,
            parts.k_bias,
            parts.v_bias,
        ) {
            PackedBias::With => true,
            PackedBias::Without => false,
            PackedBias::NotPacked => {
                return Ok(None);
            },
        };
        let mut splits: Vec<usize> = Vec::new();
        splits.push(q);
        splits.push(k);
        splits.push(v);
        assert(splits@ =~= seq![q, k, v]);
        Ok(Some(PackedQkv { splits, with_bias }))
    }
}

/// What brings a loaded dimension of length `got` to the part of a shard: nothing,
/// or cutting out the part.
pub open spec fn part_of(got: usize, global: usize, shard: Shard) -> Result<
    Option<Slice>,
    AttentionError,
> {
    let local = (global as int / shard.world_size as int) as usize;
    if got == local {
        Ok(None)
    } else if got == global {
        Ok(Some(Slice { start: (shard.rank * local) as usize, len: local }))
    } else {
        Err(AttentionError::ShardShape { got, local, global })
    }
}

/// The stretch to cut out of a one dimensional tensor.
pub open spec fn cut_1d(dim: usize, global: usize, shard: Shard) -> Result<
    Option<Slice>,
    AttentionError,
> {
    if shard.world_size <= 1 {
        Ok(None)
    } else {
        part_of(dim, global, shard)
    }
}

/// The stretch to cut out of a two dimensional tensor, along the shard's dimension.
pub open spec fn cut_2d(dims: (usize, usize), global: (usize, usize), shard: Shard) -> Result<
    Option<Slice>,
    AttentionError,
> {
    if shard.world_size <= 1 {
        Ok(None)
    } else if shard.dim > 1 {
        Err(AttentionError::ShardDim { dim: shard.dim })
    } else if shard.dim == 0 {
        part_of(dims.0, global.0, shard)
    } else {
        part_of(dims.1, global.1, shard)
    }
}

fn cut_part(got: usize, global: usize, shard: Shard) -> (r: Result<Option<Slice>, AttentionError>)
    requires
        shard.world_size > 0,
        shard.rank < shard.world_size,
    ensures
        r == part_of(got, global, shard),
{
    let local: usize = global / shard.world_size;
    if got == local {
        Ok(None)
    } else if got == global {
        proof {
            super::linear::lemma_part_fits(
                global as int,
                shard.rank as int,
                shard.world_size as int,
            );
        }
        Ok(Some(Slice { start: shard.rank * local, len: local }))
    } else {
        Err(AttentionError::ShardShape { got, local, global })
    }
}

/// The stretch to cut out of a loaded two dimensional tensor, along the shard's
/// dimension; none where the tensor is one part already or there is one rank.
pub fn normalize_sharded_2d(dims: (usize, usize), global: (usize, usize), shard: Shard) -> (r:
    Result<Option<Slice>, AttentionError>)
    requires
        shard.world_size > 1 ==> shard.rank < shard.world_size,
    ensures
        r == cut_2d(dims, global, shard),
{
    if shard.world_size <= 1 {
        return Ok(None);
    }
    if shard.dim > 1 {
        return Err(AttentionError::ShardDim { dim: shard.dim });
    }
    if shard.dim == 0 {
        cut_part(dims.0, global.0, shard)
    } else {
        cut_part(dims.1, global.1, shard)
    }
}

/// The stretch to cut out of a loaded one dimensional tensor.
pub fn normalize_sharded_1d(dim: usize, global: usize, shard: Shard) -> (r: Result<
    Option<Slice>,
    AttentionError,
>)
    requires
        shard.world_size > 1 ==> shard.rank < shard.world_size,
    ensures
        r == cut_1d(dim, global, shard),
{
    if shard.world_size <= 1 {
        return Ok(None);
    }
    cut_part(dim, global, shard)
}

/// A loaded bias: nothing, or a bias with the cut and the conversion to apply.
#[derive(Debug, Clone, Copy, PartialEq, Eq, Structural)]
pub struct BiasPlan {
    pub cut: Option<Slice>,
    pub convert: Option<Dtype>,
}

/// What becomes of a bias that was asked for. `loaded` is its length and type, or
/// nothing where it was not found. Quantized single files hold no biases.
pub fn load_sharded_bias(
    is_qvar_builder: bool,
    loaded: Option<(usize, Dtype)>,
    out_dim: usize,
    shard: Shard,
    dtype: Dtype,
) -> (r: Result<Option<BiasPlan>, AttentionError>)
    requires
        shard.world_size > 1 ==> shard.rank < shard.world_size,
    ensures
        r == match loaded {
            Some((len, got)) if !is_qvar_builder => match cut_1d(len, out_dim, shard) {
                Ok(cut) => Ok::<Option<BiasPlan>, AttentionError>(
                    Some(BiasPlan { cut, convert: deltanet::conversion(got, dtype) }),
                ),
                Err(e) => Err::<Option<BiasPlan>, AttentionError>(e),
            },
            _ => Ok::<Option<BiasPlan>, AttentionError>(None),
        },
{
    if is_qvar_builder {
        return Ok(None);
    }
    match loaded {
        None => Ok(None),
        Some((len, got)) => match normalize_sharded_1d(len, out_dim, shard) {
            Ok(cut) => Ok(Some(BiasPlan { cut, convert: convert_to(got, dtype) })),
            Err(e) => Err(e),
        },
    }
}

/// Under which name the scales of a weight in blocks were found.
#[derive(Debug, Clone, Copy, PartialEq, Eq, Structural)]
pub enum ScaleName {
    WeightScale,
    WeightScaleInv,
}

/// What was found of a weight in blocks and its scales, with their shapes.
#[derive(Debug, Clone, Copy, PartialEq, Eq)]
pub struct Fp8Found {
    pub weight: Option<(usize, usize)>,
    pub weight_scale: Option<(usize, usize)>,
    pub weight_scale_inv: Option<(usize, usize)>,
}

/// A weight in blocks on a rank: what is cut out of it and of its scales, and the rows
/// that it has then.
#[derive(Debug, Clone, Copy, PartialEq, Eq, Structural)]
pub struct Fp8Weight {
    pub cut: Option<Slice>,
    pub rows: usize,
    pub scale: ScaleName,
    pub scale_cut: Option<Slice>,
}

/// The rows of a weight after a cut along the shard's dimension.
pub open spec fn rows_after(dims: (usize, usize), cut: Option<Slice>, shard: Shard) -> usize {
    match cut {
        Some(part) if shard.dim == 0 => part.len,
        _ => dims.0,
    }
}

/// The scales that count: those of the first name that is found.
pub open spec fn found_scale(found: Fp8Found) -> Option<(ScaleName, (usize, usize))> {
    match (found.weight_scale, found.weight_scale_inv) {
        (Some(dims), _) => Some((ScaleName::WeightScale, dims)),
        (None, Some(dims)) => Some((ScaleName::WeightScaleInv, dims)),
        (None, None) => None,
    }
}

/// The answer of [`fp8_weight_scale`] where a scale is listed.
pub open spec fn fp8_answer(
    found: Fp8Found,
    dims: (usize, usize),
    block: (usize, usize),
    shard: Shard,
) -> Result<Option<Fp8Weight>, AttentionError> {
    let scale_dims = (
        ceil_div(dims.0 as int, block.0 as int) as usize,
        ceil_div(dims.1 as int, block.1 as int) as usize,
    );
    match found.weight {
        None => Ok(None),
        Some(got) => match cut_2d(got, dims, shard) {
            Err(e) => Err(e),
            Ok(cut) => match found_scale(found) {
                None => Ok(None),
                Some((scale, scale_got)) => match cut_2d(scale_got, scale_dims, shard) {
                    Err(e) => Err(e),
                    Ok(scale_cut) => Ok(
                        Some(Fp8Weight { cut, rows: rows_after(got, cut, shard), scale, scale_cut }),
                    ),
                },
            },
        },
    }
}

/// A weight `(out, in)` in blocks with its scales on a rank: nothing where no scale is
/// listed, or where the weight or both scales were not found. A shape that is neither
/// one part nor whole is an error, of the weight before that of the scales.
pub fn fp8_weight_scale(
    vb: &VarBuilderX,
    found: &Fp8Found,
    dims: (usize, usize),
    block: (usize, usize),
    shard: Shard,
) -> (r: Result<Option<Fp8Weight>, AttentionError>)
    requires
        vb.lists("weight_scale"@) || vb.lists("weight_scale_inv"@) ==> block.0 > 0 && block.1 > 0,
        shard.world_size > 1 ==> shard.rank < shard.world_size,
    ensures
        r == if vb.lists("weight_scale"@) || vb.lists("weight_scale_inv"@) {
            fp8_answer(*found, dims, block, shard)
        } else {
            Ok::<Option<Fp8Weight>, AttentionError>(None)
        },
{
    if !vb.has_key("weight_scale") && !vb.has_key("weight_scale_inv") {
        return Ok(None);
    }
    let got: (usize, usize) = match found.weight {
        Some(got) => got,
        None => {
            return Ok(None);
        },
    };
    let cut: Option<Slice> = match normalize_sharded_2d(got, dims, shard) {
        Ok(cut) => cut,
        Err(e) => {
            return Err(e);
        },
    };
    let (scale, scale_got): (ScaleName, (usize, usize)) = match (
        found.weight_scale,
        found.weight_scale_inv,
    ) {
        (Some(dims), _) => (ScaleName::WeightScale, dims),
        (None, Some(dims)) => (ScaleName::WeightScaleInv, dims),
        (None, None) => {
            return Ok(None);
        },
    };
    let scale_dims: (usize, usize) = fp8_scale_shape(dims.0, dims.1, block.0, block.1);
    let scale_cut: Option<Slice> = match normalize_sharded_2d(scale_got, scale_dims, shard) {
        Ok(cut) => cut,
        Err(e) => {
            return Err(e);
        },
    };
    let rows: usize = match cut {
        Some(part) if shard.dim == 0 => part.len,
        _ => got.0,
    };
    Ok(Some(Fp8Weight { cut, rows, scale, scale_cut }))
}

/// A loaded layer, as far as a forward pass reads it.
#[derive(Debug, Clone, Copy, PartialEq, Eq, Structural)]
pub struct Attention {
    pub packed: bool,
    pub num_heads: usize,
    pub num_kv_heads: usize,
    pub head_dim: usize,
    pub attn_output_gate: bool,
    pub dtype: Dtype,
    pub qk_norm: QkNorm,
    pub is_qvar_builder: bool,
    pub qk_l2_norm: bool,
    pub promote_qk_to_f32: bool,
    /// What the norm of values adds below its root, where there is one.
    pub v_norm_eps: Option<u64>,
    /// Attention over the cache, with the heads of this rank.
    pub attn: PagedAttention,
}

/// How the raw queries of a gated layer are cut, per head.
#[derive(Debug, Clone, Copy, PartialEq, Eq)]
pub struct GateSplit {
    /// `(tokens, heads, 2 * head dim)`.
    pub shape: (usize, usize, usize),
    pub query: Slice,
    pub gate: Slice,
    /// `(tokens, heads * head dim)`, of queries and gates.
    pub flat: (usize, usize),
}

/// What the rotary embedding knows of scaling by position: the original length, and
/// how scaling grows.
#[derive(Debug, Clone, Copy, PartialEq, Eq, Structural)]
pub struct RotaryScaling {
    pub original_max_position: bool,
    pub scaling_beta: bool,
}

/// What the norm of heads to length one adds below its root: a hundred thousandth, as
/// the bits of a double.
pub const HEAD_EPS: u64 = 0x3ee4_f8b5_88e3_68f1;

/// A step of a forward pass after the projection of queries, keys and values.
#[derive(Debug, Clone, Copy, PartialEq, Eq)]
pub enum AttentionStep {
    /// Cut the raw queries into queries and gates.
    CutGate(GateSplit),
    /// Shape the queries `(tokens, heads, head dim)`, and the keys and the values
    /// `(tokens, KV heads, head dim)`.
    Shape { q: (usize, usize, usize), kv: (usize, usize, usize) },
    /// Convert queries and keys to singles, where the queries have another type.
    PromoteQk,
    /// Normalize queries and keys in rows of these shapes, and shape them as before.
    NormQk {
        q_rows: (usize, usize),
        k_rows: (usize, usize),
        q: (usize, usize, usize),
        kv: (usize, usize, usize),
    },
    /// Rotate queries and keys by their positions, where the embedding rotates them.
    Rotate,
    /// Divide each head of queries and keys by the root of its mean square.
    UnitQk { eps: u64 },
    /// Convert queries and keys to this type, where the queries have another one.
    ConvertQk(Dtype),
    /// Convert the values to this type, where they have another one.
    ConvertV(Dtype),
    /// Divide each head of values by the root of its mean square, in singles, and
    /// convert them back.
    UnitV { eps: u64 },
    /// Multiply the queries by the scale of their positions, in this shape and in the
    /// type of the queries.
    ScaleByPosition((usize, usize, usize)),
    /// Multiply the queries by the given scale, in this shape and in singles, and
    /// convert them back.
    ScaleGiven((usize, usize, usize)),
    /// Attend to the cached keys and values: the output.
    Attend,
    /// Repeat each head of the values in place, in this shape.
    RepeatValues((usize, usize, usize, usize)),
    /// The values are the output: a single token attends to itself alone.
    TakeValues,
    /// Shape the output `(tokens, heads * head dim)`.
    Flatten((usize, usize)),
    /// Convert the gates to the type of the output, where they have another one.
    ConvertGate,
    /// Multiply the output by the sigmoid of the gates.
    MultiplyGate,
    /// Convert the output to this type.
    ConvertOutput(Dtype),
    /// Apply the last projection.
    ProjectOutput,
}

impl AttentionStep {
    /// What a step converts its operand to, where it has type `got` and the output has
    /// type `output`: queries decide for the keys with them.
    pub open spec fn conversion_of(&self, got: Dtype, output: Dtype) -> Option<Dtype> {
        match *self {
            AttentionStep::PromoteQk => deltanet::conversion(got, Dtype::F32),
            AttentionStep::ConvertQk(to) => deltanet::conversion(got, to),
            AttentionStep::ConvertV(to) => deltanet::conversion(got, to),
            AttentionStep::ConvertGate => deltanet::conversion(got, output),
            AttentionStep::ConvertOutput(to) => Some(to),
            _ => None,
        }
    }

    /// What a step converts its operand to, in a type that the device gave.
    pub fn convert(&self, got: Dtype, output: Dtype) -> (r: Option<Dtype>)
        ensures
            r == self.conversion_of(got, output),
    {
        match *self {
            AttentionStep::PromoteQk => convert_to(got, Dtype::F32),
            AttentionStep::ConvertQk(to) => convert_to(got, to),
            AttentionStep::ConvertV(to) => convert_to(got, to),
            AttentionStep::ConvertGate => convert_to(got, output),
            AttentionStep::ConvertOutput(to) => Some(to),
            _ => None,
        }
    }
}

/// A step that is made under a condition.
pub open spec fn when(condition: bool, step: AttentionStep) -> Seq<AttentionStep> {
    if condition {
        seq![step]
    } else {
        Seq::empty()
    }
}

fn push_when(steps: &mut Vec<AttentionStep>, condition: bool, step: AttentionStep)
    ensures
        final(steps)@ == old(steps)@ + when(condition, step),
{
    if condition {
        steps.push(step);
    }
    assert(steps@ =~= old(steps)@ + when(condition, step));
}

/// A forward pass: what is given, and what the projection gave.
#[derive(Debug, Clone, Copy, PartialEq, Eq, Structural)]
pub struct AttentionCall {
    pub tokens: usize,
    /// How many tensors a packed projection gave.
    pub outputs: usize,
    /// The length of the raw queries.
    pub q_dim: usize,
    /// The type of the input.
    pub xs_type: Dtype,
    /// The rotary embedding, where there is one.
    pub rotary: Option<RotaryScaling>,
    /// The queries come with a scale.
    pub q_scale: bool,
}

impl Attention {
    /// The lengths that a forward pass computes fit.
    pub open spec fn fits(&self, tokens: usize) -> bool {
        &&& self.num_heads * self.head_dim <= usize::MAX
        &&& self.attn_output_gate ==> 2 * (self.num_heads * self.head_dim) <= usize::MAX && 2
            * self.head_dim <= usize::MAX
        &&& self.qk_norm is FullDim ==> self.num_kv_heads * self.head_dim <= usize::MAX
        &&& self.qk_norm is PerHead ==> tokens * self.num_heads <= usize::MAX && tokens
            * self.num_kv_heads <= usize::MAX
    }

    /// The length of the queries of a token.
    pub open spec fn width(&self) -> usize {
        (self.num_heads * self.head_dim) as usize
    }

    /// How queries and gates are cut apart.
    pub open spec fn gate_split(&self, tokens: usize) -> GateSplit {
        GateSplit {
            shape: (tokens, self.num_heads, (2 * self.head_dim) as usize),
            query: Slice { start: 0, len: self.head_dim },
            gate: Slice { start: self.head_dim, len: self.head_dim },
            flat: (tokens, self.width()),
        }
    }

    /// The rows in which queries and keys are normalized: one per token with a weight
    /// per channel of all heads, and one per head of a token with a weight per channel
    /// of a head.
    pub open spec fn norm_step(&self, tokens: usize) -> Seq<AttentionStep> {
        match self.qk_norm {
            QkNorm::FullDim => seq![
                AttentionStep::NormQk {
                    q_rows: (tokens, self.width()),
                    k_rows: (tokens, (self.num_kv_heads * self.head_dim) as usize),
                    q: (tokens, self.num_heads, self.head_dim),
                    kv: (tokens, self.num_kv_heads, self.head_dim),
                },
            ],
            QkNorm::PerHead => seq![
                AttentionStep::NormQk {
                    q_rows: ((tokens * self.num_heads) as usize, self.head_dim),
                    k_rows: ((tokens * self.num_kv_heads) as usize, self.head_dim),
                    q: (tokens, self.num_heads, self.head_dim),
                    kv: (tokens, self.num_kv_heads, self.head_dim),
                },
            ],
            QkNorm::Absent => Seq::empty(),
        }
    }

    /// The steps before queries and keys are rotated.
    pub open spec fn prepare_steps(&self, tokens: usize) -> Seq<AttentionStep> {
        when(self.attn_output_gate, AttentionStep::CutGate(self.gate_split(tokens))) + seq![
            AttentionStep::Shape {
                q: (tokens, self.num_heads, self.head_dim),
                kv: (tokens, self.num_kv_heads, self.head_dim),
            },
        ] + when(self.promote_qk_to_f32, AttentionStep::PromoteQk) + self.norm_step(tokens)
    }

    /// The steps from rotated queries and keys to the output.
    pub open spec fn attend_steps(&self, c: AttentionCall) -> Seq<AttentionStep> {
        let column = (c.tokens, 1usize, 1usize);
        let by_position = c.rotary matches Some(r) && r.original_max_position && r.scaling_beta;
        when(self.qk_l2_norm, AttentionStep::UnitQk { eps: HEAD_EPS }) + seq![
            AttentionStep::ConvertQk(self.dtype),
            AttentionStep::ConvertV(self.dtype),
        ] + match self.v_norm_eps {
            Some(eps) => seq![AttentionStep::UnitV { eps }],
            None => Seq::empty(),
        } + when(by_position, AttentionStep::ScaleByPosition(column)) + when(
            c.q_scale,
            AttentionStep::ScaleGiven(column),
        ) + seq![AttentionStep::Attend]
    }

    /// The steps from the output of the heads to the last projection.
    pub open spec fn output_steps(&self, tokens: usize, xs_type: Dtype) -> Seq<AttentionStep> {
        seq![AttentionStep::Flatten((tokens, self.width()))] + when(
            self.attn_output_gate,
            AttentionStep::ConvertGate,
        ) + when(self.attn_output_gate, AttentionStep::MultiplyGate) + when(
            !self.is_qvar_builder,
            AttentionStep::ConvertOutput(xs_type),
        ) + seq![AttentionStep::ProjectOutput]
    }

    /// The steps of a forward pass, in order.
    pub open spec fn forward_steps(&self, c: AttentionCall) -> Seq<AttentionStep> {
        self.prepare_steps(c.tokens) + when(c.rotary is Some, AttentionStep::Rotate)
            + self.attend_steps(c) + self.output_steps(c.tokens, c.xs_type)
    }

    /// The steps for single tokens without a cache, in order. Queries and keys go as
    /// far as their rotation; a token that attends to itself alone gets its values.
    pub open spec fn single_token_steps(&self, tokens: usize, xs_type: Dtype) -> Seq<
        AttentionStep,
    > {
        let repeats = self.num_heads as int / self.num_kv_heads as int;
        self.prepare_steps(tokens) + seq![AttentionStep::Rotate] + when(
            repeats > 1,
            AttentionStep::RepeatValues(
                (tokens, self.num_kv_heads, repeats as usize, self.head_dim),
            ),
        ) + seq![AttentionStep::TakeValues] + self.output_steps(tokens, xs_type)
    }

    fn prepare(&self, tokens: usize) -> (r: Vec<AttentionStep>)
        requires
            self.fits(tokens),
        ensures
            r@ == self.prepare_steps(tokens),
    {
        proof {
            assert(self.num_heads * self.head_dim >= 0) by (nonlinear_arith);
            assert(self.num_kv_heads * self.head_dim >= 0) by (nonlinear_arith);
            assert(tokens * self.num_heads >= 0) by (nonlinear_arith);
            assert(tokens * self.num_kv_heads >= 0) by (nonlinear_arith);
        }
        let width: usize = self.num_heads * self.head_dim;
        let q: (usize, usize, usize) = (tokens, self.num_heads, self.head_dim);
        let kv: (usize, usize, usize) = (tokens, self.num_kv_heads, self.head_dim);
        let mut steps: Vec<AttentionStep> = Vec::new();
        if self.attn_output_gate {
            steps.push(
                AttentionStep::CutGate(
                    GateSplit {
                        shape: (tokens, self.num_heads, self.head_dim * 2),
                        query: Slice { start: 0, len: self.head_dim },
                        gate: Slice { start: self.head_dim, len: self.head_dim },
                        flat: (tokens, width),
                    },
                ),
            );
        }
        steps.push(AttentionStep::Shape { q, kv });
        push_when(&mut steps, self.promote_qk_to_f32, AttentionStep::PromoteQk);
        match self.qk_norm {
            QkNorm::FullDim => {
                steps.push(
                    AttentionStep::NormQk {
                        q_rows: (tokens, width),
                        k_rows: (tokens, self.num_kv_heads * self.head_dim),
                        q,
                        kv,
                    },
                );
            },
            QkNorm::PerHead => {
                steps.push(
                    AttentionStep::NormQk {
                        q_rows: (tokens * self.num_heads, self.head_dim),
                        k_rows: (tokens * self.num_kv_heads, self.head_dim),
                        q,
                        kv,
                    },
                );
            },
            QkNorm::Absent => {},
        }
        assert(steps@ =~= self.prepare_steps(tokens));
        steps
    }

    fn push_output(&self, steps: &mut Vec<AttentionStep>, tokens: usize, xs_type: Dtype)
        requires
            self.fits(tokens),
        ensures
            final(steps)@ == old(steps)@ + self.output_steps(tokens, xs_type),
    {
        proof {
            assert(self.num_heads * self.head_dim >= 0) by (nonlinear_arith);
        }
        steps.push(AttentionStep::Flatten((tokens, self.num_heads * self.head_dim)));
        push_when(steps, self.attn_output_gate, AttentionStep::ConvertGate);
        push_when(steps, self.attn_output_gate, AttentionStep::MultiplyGate);
        push_when(steps, !self.is_qvar_builder, AttentionStep::ConvertOutput(xs_type));
        steps.push(AttentionStep::ProjectOutput);
        assert(steps@ =~= old(steps)@ + self.output_steps(tokens, xs_type));
    }

    fn push_attend(&self, steps: &mut Vec<AttentionStep>, c: &AttentionCall)
        ensures
            final(steps)@ == old(steps)@ + self.attend_steps(*c),
    {
        let ghost before = steps@;
        push_when(steps, self.qk_l2_norm, AttentionStep::UnitQk { eps: HEAD_EPS });
        steps.push(AttentionStep::ConvertQk(self.dtype));
        steps.push(AttentionStep::ConvertV(self.dtype));
        let ghost typed = when(self.qk_l2_norm, AttentionStep::UnitQk { eps: HEAD_EPS }) + seq![
            AttentionStep::ConvertQk(self.dtype),
            AttentionStep::ConvertV(self.dtype),
        ];
        assert(steps@ =~= before + typed);
        let ghost mut normed = typed;
        if let Some(eps) = self.v_norm_eps {
            steps.push(AttentionStep::UnitV { eps });
            proof {
                normed = typed + seq![AttentionStep::UnitV { eps }];
            }
        } else {
            assert(typed =~= typed + Seq::<AttentionStep>::empty());
        }
        assert(steps@ =~= before + normed);
        let by_position: bool = match c.rotary {
            Some(r) => r.original_max_position && r.scaling_beta,
            None => false,
        };
        let column: (usize, usize, usize) = (c.tokens, 1, 1);
        push_when(steps, by_position, AttentionStep::ScaleByPosition(column));
        push_when(steps, c.q_scale, AttentionStep::ScaleGiven(column));
        let ghost scaled = normed + when(by_position, AttentionStep::ScaleByPosition(column))
            + when(c.q_scale, AttentionStep::ScaleGiven(column));
        assert(steps@ =~= before + scaled);
        steps.push(AttentionStep::Attend);
        assert(steps@ =~= before + (scaled + seq![AttentionStep::Attend]));
    }

    /// Plans a forward pass from what the projection gave.
    pub fn forward_ext(&self, c: &AttentionCall) -> (r: Result<Vec<AttentionStep>, AttentionError>)
        requires
            self.fits(c.tokens),
        ensures
            match r {
                Ok(steps) => self.forward_refusal(*c) is None && steps@ == self.forward_steps(*c),
                Err(e) => self.forward_refusal(*c) == Some(e),
            },
    {
        if self.packed && c.outputs != 3 {
            return Err(AttentionError::PackedOutputs { got: c.outputs });
        }
        proof {
            assert(self.num_heads * self.head_dim >= 0) by (nonlinear_arith);
        }
        if self.attn_output_gate {
            let expected: usize = self.num_heads * self.head_dim * 2;
            if c.q_dim != expected {
                return Err(AttentionError::GatedDim { expected, got: c.q_dim });
            }
        }
        let mut steps: Vec<AttentionStep> = self.prepare(c.tokens);
        push_when(&mut steps, c.rotary.is_some(), AttentionStep::Rotate);
        self.push_attend(&mut steps, c);
        self.push_output(&mut steps, c.tokens, c.xs_type);
        Ok(steps)
    }

    /// Plans a forward pass whose queries come without a scale.
    pub fn forward(&self, c: &AttentionCall) -> (r: Result<Vec<AttentionStep>, AttentionError>)
        requires
            self.fits(c.tokens),
        ensures
            ({
                let unscaled = AttentionCall { q_scale: false, ..*c };
                match r {
                    Ok(steps) => self.forward_refusal(unscaled) is None && steps@
                        == self.forward_steps(unscaled),
                    Err(e) => self.forward_refusal(unscaled) == Some(e),
                }
            }),
    {
        let unscaled: AttentionCall = AttentionCall {
            tokens: c.tokens,
            outputs: c.outputs,
            q_dim: c.q_dim,
            xs_type: c.xs_type,
            rotary: c.rotary,
            q_scale: false,
        };
        self.forward_ext(&unscaled)
    }

    /// What a forward pass refuses: a packed projection without its three outputs, and
    /// gated queries of another length.
    pub open spec fn forward_refusal(&self, c: AttentionCall) -> Option<AttentionError> {
        let expected = 2 * (self.num_heads * self.head_dim);
        if self.packed && c.outputs != 3 {
            Some(AttentionError::PackedOutputs { got: c.outputs })
        } else if self.attn_output_gate && c.q_dim != expected {
            Some(AttentionError::GatedDim { expected: expected as usize, got: c.q_dim })
        } else {
            None
        }
    }

    /// Plans a pass for single tokens without a cache.
    pub fn forward_single_token_no_cache(&self, tokens: usize, xs_type: Dtype) -> (r: Vec<
        AttentionStep,
    >)
        requires
            self.fits(tokens),
            self.num_kv_heads > 0,
        ensures
            r@ == self.single_token_steps(tokens, xs_type),
    {
        let repeats: usize = self.num_heads / self.num_kv_heads;
        let mut steps: Vec<AttentionStep> = self.prepare(tokens);
        steps.push(AttentionStep::Rotate);
        push_when(
            &mut steps,
            repeats > 1,
            AttentionStep::RepeatValues((tokens, self.num_kv_heads, repeats, self.head_dim)),
        );
        steps.push(AttentionStep::TakeValues);
        let ghost before = steps@;
        self.push_output(&mut steps, tokens, xs_type);
        assert(steps@ =~= self.single_token_steps(tokens, xs_type));
        steps
    }
}

/// The layer of a plan, with its projections and norms.
pub open spec fn loaded_attention(p: AttentionPlan, packed: bool, qk_norm: QkNorm) -> Attention {
    Attention {
        packed,
        num_heads: p.num_heads,
        num_kv_heads: p.num_kv_heads,
        head_dim: p.head_dim,
        attn_output_gate: p.attn_output_gate,
        dtype: p.dtype,
        qk_norm,
        is_qvar_builder: p.is_qvar_builder,
        qk_l2_norm: p.qk_l2_norm,
        promote_qk_to_f32: p.promote_qk_to_f32,
        v_norm_eps: p.v_norm_eps,
        attn: PagedAttention {
            num_heads: p.num_heads,
            num_kv_heads: p.num_kv_heads,
            head_dim: p.head_dim,
        },
    }
}

/// What to do next in loading a layer.
#[derive(Debug, Clone, Copy, PartialEq, Eq, Structural)]
pub enum AttentionLoad {
    /// Load the weight of a part of a packed projection, with its scales where it is
    /// in blocks.
    Weight(QkvPart),
    /// Load the bias of a part.
    Bias(QkvPart),
    /// Join the parts to one projection.
    Pack,
    /// Load three projections.
    Separate,
    /// Load the last projection.
    Output,
    /// Load the norms with one weight per head channel.
    HeadNorms,
    /// Load the norms with one weight per channel of all heads.
    FullNorms,
    /// The layer is loaded.
    Done,
    /// An error ended the loading.
    Failed,
}

/// Loading of a layer: packed where its parts can be packed, and with full norms only
/// where a norm per head is missing.
pub struct AttentionLoader<'a> {
    pub plan: &'a AttentionPlan,
    pub route: PackedRoute,
    pub parts: PackedParts,
    /// The packed projection, once its parts are there.
    pub packed: Option<PackedQkv>,
    /// Which norms of queries and of keys were found.
    pub per_head: (bool, bool),
    pub full: (bool, bool),
    pub step: AttentionLoad,
}

impl<'a> AttentionLoader<'a> {
    /// What is loaded fits what comes next: parts stand in their order, a projection
    /// is packed exactly where its parts pack, and full norms are tried only where a
    /// norm per head is missing.
    pub open spec fn wf(&self) -> bool {
        let parts = self.parts;
        let decided = self.step is Output || self.step is HeadNorms || self.step is FullNorms
            || self.step is Done;
        &&& self.plan.fits_blocks(self.route, parts)
        &&& match self.step {
            AttentionLoad::Weight(part) => {
                &&& !(self.route is Separate)
                &&& parts == (PackedParts {
                    q: parts.q,
                    k: parts.k,
                    ..PackedParts::nothing()
                })
                &&& parts.missing() == Some(part)
                &&& part is Q ==> parts.k is None
            },
            AttentionLoad::Bias(part) => {
                &&& self.plan.attention_bias
                &&& self.plan.weights_pack(self.route, parts)
                &&& !parts.v_bias
                &&& !(part is V) ==> !parts.k_bias
                &&& part is Q ==> !parts.q_bias
            },
            AttentionLoad::Pack => self.plan.packs(self.route, parts),
            AttentionLoad::Separate => !self.plan.packs(self.route, parts) && packed_refusal(
                self.route,
                parts,
            ) is None,
            _ => true,
        }
        &&& match self.packed {
            Some(p) => self.plan.packs(self.route, parts) && self.plan.is_packed(parts, p) && (
            self.step is Pack || decided || self.step is Failed),
            None => !(self.step is Pack),
        }
        &&& decided ==> packed_refusal(self.route, parts) is None && (self.packed is Some
            == self.plan.packs(self.route, parts))
        &&& self.step is FullNorms ==> !(self.per_head.0 && self.per_head.1)
        &&& self.full.0 || self.full.1 ==> self.step is Done && !(self.per_head.0
            && self.per_head.1)
    }

    /// What no step changes.
    pub open spec fn same_layer(&self, other: &AttentionLoader<'a>) -> bool {
        self.plan == other.plan && self.route == other.route
    }

    /// Starts with the weights of a packed projection, or with three projections.
    pub fn new(plan: &'a AttentionPlan, route: PackedRoute) -> (r: Self)
        ensures
            r.wf(),
            r.plan == plan,
            r.route == route,
            r.step == if route is Separate {
                AttentionLoad::Separate
            } else {
                AttentionLoad::Weight(QkvPart::Q)
            },
    {
        let step: AttentionLoad = match route {
            PackedRoute::Separate => AttentionLoad::Separate,
            _ => AttentionLoad::Weight(QkvPart::Q),
        };
        AttentionLoader {
            plan,
            route,
            parts: PackedParts {
                q: None,
                k: None,
                v: None,
                q_bias: false,
                k_bias: false,
                v_bias: false,
            },
            packed: None,
            per_head: (false, false),
            full: (false, false),
            step,
        }
    }

    /// What follows the weights and biases: they are packed, or three projections are
    /// loaded.
    fn decide(&mut self)
        requires
            old(self).plan.fits_blocks(old(self).route, old(self).parts),
            old(self).parts.all_weights(),
            old(self).packed is None,
            old(self).full == (false, false),
        ensures
            final(self).same_layer(old(self)),
            final(self).parts == old(self).parts,
            final(self).wf(),
            final(self).step == if old(self).plan.packs(old(self).route, old(self).parts) {
                AttentionLoad::Pack
            } else {
                AttentionLoad::Separate
            },
    {
        match self.plan.packed_qkv(self.route, &self.parts) {
            Ok(Some(p)) => {
                self.packed = Some(p);
                self.step = AttentionLoad::Pack;
            },
            _ => {
                self.step = AttentionLoad::Separate;
            },
        }
    }

    /// The weight of a part was looked for: `rows` on this rank, or none. Without a
    /// weight in blocks three projections are loaded; without an unquantized one the
    /// loading fails.
    pub fn weight_loaded(&mut self, rows: Option<usize>)
        requires
            old(self).wf(),
            old(self).step matches AttentionLoad::Weight(part) && old(self).plan.fits_blocks(
                old(self).route,
                old(self).parts.with_weight(part, rows),
            ),
        ensures
            final(self).wf(),
            final(self).same_layer(old(self)),
            old(self).step matches AttentionLoad::Weight(part) ==> {
                let parts = old(self).parts.with_weight(part, rows);
                &&& final(self).parts == parts
                &&& final(self).step == if rows is None {
                    if old(self).route is Dense {
                        AttentionLoad::Failed
                    } else {
                        AttentionLoad::Separate
                    }
                } else {
                    match part {
                        QkvPart::Q => AttentionLoad::Weight(QkvPart::K),
                        QkvPart::K => AttentionLoad::Weight(QkvPart::V),
                        QkvPart::V => if !old(self).plan.weights_pack(old(self).route, parts) {
                            AttentionLoad::Separate
                        } else if old(self).plan.attention_bias {
                            AttentionLoad::Bias(QkvPart::Q)
                        } else {
                            AttentionLoad::Pack
                        },
                    }
                }
            },
    {
        let part: QkvPart = match self.step {
            AttentionLoad::Weight(part) => part,
            _ => QkvPart::V,
        };
        match part {
            QkvPart::Q => {
                self.parts.q = rows;
            },
            QkvPart::K => {
                self.parts.k = rows;
            },
            QkvPart::V => {
                self.parts.v = rows;
            },
        }
        if rows.is_none() {
            self.step = match self.route {
                PackedRoute::Dense => AttentionLoad::Failed,
                _ => AttentionLoad::Separate,
            };
            return ;
        }
        match part {
            QkvPart::Q => {
                self.step = AttentionLoad::Weight(QkvPart::K);
            },
            QkvPart::K => {
                self.step = AttentionLoad::Weight(QkvPart::V);
            },
            QkvPart::V => {
                if !self.plan.attention_bias {
                    self.decide();
                } else if self.plan.check_weights(self.route, &self.parts) {
                    self.step = AttentionLoad::Bias(QkvPart::Q);
                } else {
                    self.step = AttentionLoad::Separate;
                }
            },
        }
    }

    /// The bias of a part was looked for. With some biases and without others three
    /// projections are loaded.
    pub fn bias_loaded(&mut self, found: bool)
        requires
            old(self).wf(),
            old(self).step is Bias,
        ensures
            final(self).wf(),
            final(self).same_layer(old(self)),
            old(self).step matches AttentionLoad::Bias(part) ==> {
                let parts = old(self).parts.with_bias(part, found);
                &&& final(self).parts == parts
                &&& final(self).step == match part {
                    QkvPart::Q => AttentionLoad::Bias(QkvPart::K),
                    QkvPart::K => AttentionLoad::Bias(QkvPart::V),
                    QkvPart::V => if old(self).plan.packs(old(self).route, parts) {
                        AttentionLoad::Pack
                    } else {
                        AttentionLoad::Separate
                    },
                }
            },
    {
        match self.step {
            AttentionLoad::Bias(QkvPart::Q) => {
                self.parts.q_bias = found;
                self.step = AttentionLoad::Bias(QkvPart::K);
            },
            AttentionLoad::Bias(QkvPart::K) => {
                self.parts.k_bias = found;
                self.step = AttentionLoad::Bias(QkvPart::V);
            },
            _ => {
                self.parts.v_bias = found;
                self.decide();
            },
        }
    }

    /// Queries, keys and values are loaded, packed or in three projections.
    pub fn qkv_loaded(&mut self)
        requires
            old(self).wf(),
            old(self).step is Pack || old(self).step is Separate,
        ensures
            final(self).wf(),
            final(self).same_layer(old(self)),
            final(self).parts == old(self).parts,
            final(self).step is Output,
    {
        self.step = AttentionLoad::Output;
    }

    /// The last projection is loaded.
    pub fn output_loaded(&mut self)
        requires
            old(self).wf(),
            old(self).step is Output,
        ensures
            final(self).wf(),
            final(self).same_layer(old(self)),
            final(self).parts == old(self).parts,
            final(self).step is HeadNorms,
    {
        self.step = AttentionLoad::HeadNorms;
    }

    /// The norms per head were tried: of queries, and of keys. A pair is needed.
    pub fn head_norms_loaded(&mut self, q: bool, k: bool)
        requires
            old(self).wf(),
            old(self).step is HeadNorms,
        ensures
            final(self).wf(),
            final(self).same_layer(old(self)),
            final(self).parts == old(self).parts,
            final(self).per_head == (q, k),
            final(self).full == (false, false),
            final(self).step == if q && k {
                AttentionLoad::Done
            } else {
                AttentionLoad::FullNorms
            },
    {
        self.per_head = (q, k);
        self.step = if q && k {
            AttentionLoad::Done
        } else {
            AttentionLoad::FullNorms
        };
    }

    /// The full norms were tried: of queries, and of keys.
    pub fn full_norms_loaded(&mut self, q: bool, k: bool)
        requires
            old(self).wf(),
            old(self).step is FullNorms,
        ensures
            final(self).wf(),
            final(self).same_layer(old(self)),
            final(self).parts == old(self).parts,
            final(self).per_head == old(self).per_head,
            final(self).full == (q, k),
            final(self).step is Done,
    {
        self.full = (q, k);
        self.step = AttentionLoad::Done;
    }

    /// Something else could not be loaded. Missing norms are no failure.
    pub fn failed(&mut self)
        requires
            old(self).wf(),
            !(old(self).step is HeadNorms || old(self).step is FullNorms || old(self).step
                is Done),
        ensures
            final(self).wf(),
            final(self).same_layer(old(self)),
            final(self).parts == old(self).parts,
            final(self).step is Failed,
    {
        self.step = AttentionLoad::Failed;
    }

    /// The loaded layer: packed exactly where its parts pack, with norms per head
    /// where both were found, and with full ones where not and both of those were.
    pub fn attention(&self) -> (r: Attention)
        requires
            self.wf(),
            self.step is Done,
        ensures
            r == loaded_attention(
                *self.plan,
                self.plan.packs(self.route, self.parts),
                found_norm(self.per_head, self.full),
            ),
    {
        let p: &AttentionPlan = self.plan;
        Attention {
            packed: self.packed.is_some(),
            num_heads: p.num_heads,
            num_kv_heads: p.num_kv_heads,
            head_dim: p.head_dim,
            attn_output_gate: p.attn_output_gate,
            dtype: p.dtype,
            qk_norm: qk_norm_of(self.per_head, self.full),
            is_qvar_builder: p.is_qvar_builder,
            qk_l2_norm: p.qk_l2_norm,
            promote_qk_to_f32: p.promote_qk_to_f32,
            v_norm_eps: p.v_norm_eps,
            attn: PagedAttention::new(p.num_heads, p.head_dim, Some(p.num_kv_heads)),
        }
    }
}

/// Queries and keys are normalized whole: the rows of a norm hold as many elements as
/// the queries and the keys of all tokens.
pub proof fn law_norm_rows_hold_all_heads(a: Attention, tokens: usize)
    requires
        a.fits(tokens),
        !(a.qk_norm is Absent),
    ensures
        a.norm_step(tokens).len() == 1,
        a.norm_step(tokens)[0] matches AttentionStep::NormQk { q_rows, k_rows, .. } && q_rows.0
            * q_rows.1 == tokens * (a.num_heads * a.head_dim) && k_rows.0 * k_rows.1 == tokens * (
        a.num_kv_heads * a.head_dim),
{
    let (t, d) = (tokens as int, a.head_dim as int);
    vstd::arithmetic::mul::lemma_mul_is_associative(t, a.num_heads as int, d);
    vstd::arithmetic::mul::lemma_mul_is_associative(t, a.num_kv_heads as int, d);
    assert(a.num_heads * a.head_dim >= 0 && a.num_kv_heads * a.head_dim >= 0 && tokens
        * a.num_heads >= 0 && tokens * a.num_kv_heads >= 0) by (nonlinear_arith);
}

/// Repeating every value head `n_rep` times in place and laying the heads out in a
/// row gives query head `h` the values of head `h / n_rep`.
pub proof fn law_repeated_values_follow_groups(kv: int, r: int, n_rep: int)
    requires
        n_rep > 0,
        0 <= r < n_rep,
        kv >= 0,
    ensures
        (kv * n_rep + r) / n_rep == kv,
{
    vstd::arithmetic::div_mod::lemma_fundamental_div_mod_converse(kv * n_rep + r, n_rep, kv, r);
}

/// Which attention a call takes.
#[derive(Debug, Clone, Copy, PartialEq, Eq, Structural)]
pub enum CachePath {
    Decode,
    PrefillEager,
}

/// Attention over a cache with one row per token.
#[derive(Debug, Clone, Copy, PartialEq, Eq, Structural)]
pub struct PagedAttention {
    pub num_heads: usize,
    pub num_kv_heads: usize,
    pub head_dim: usize,
}

impl PagedAttention {
    /// Without a number of KV heads every query head has its own.
    pub fn new(num_heads: usize, head_dim: usize, num_kv_heads: Option<usize>) -> (r: Self)
        ensures
            r.num_heads == num_heads,
            r.head_dim == head_dim,
            r.num_kv_heads == match num_kv_heads {
                Some(n) => n,
                None => num_heads,
            },
    {
        let kv: usize = match num_kv_heads {
            Some(n) => n,
            None => num_heads,
        };
        PagedAttention { num_heads, num_kv_heads: kv, head_dim }
    }

    /// Decode steps carry device positions; a prefill does not. Both need the
    /// cache of keys and of values.
    pub fn path(
        &self,
        has_decode_ptrs: bool,
        has_k_cache: bool,
        has_v_cache: bool,
        is_prefill: bool,
    ) -> (r: Result<CachePath, AttentionError>)
        ensures
            r == if !has_k_cache || !has_v_cache {
                Err::<CachePath, AttentionError>(AttentionError::NoCachePath)
            } else if has_decode_ptrs {
                Ok::<CachePath, AttentionError>(CachePath::Decode)
            } else if is_prefill {
                Ok::<CachePath, AttentionError>(CachePath::PrefillEager)
            } else {
                Err::<CachePath, AttentionError>(AttentionError::NoCachePath)
            },
    {
        if !has_k_cache || !has_v_cache {
            return Err(AttentionError::NoCachePath);
        }
        if has_decode_ptrs {
            Ok(CachePath::Decode)
        } else if is_prefill {
            Ok(CachePath::PrefillEager)
        } else {
            Err(AttentionError::NoCachePath)
        }
    }
}

/// The keys of a head as a matrix of `rows` by `cols`. Element `(x, j)` lies
/// `x * row_step + j * col_step` elements behind the start of the head.
#[derive(Debug, Clone, Copy, PartialEq, Eq, Structural)]
pub struct KeyMatrix {
    pub rows: usize,
    pub cols: usize,
    pub row_step: usize,
    pub col_step: usize,
}

/// A sequence of a prefill.
#[derive(Debug, Clone, Copy, PartialEq, Eq, Structural)]
pub struct PrefillSeq {
    pub tokens: Slice,
    /// The mask of the sequence, where masks are given.
    pub mask: Option<usize>,
    /// The keys of a head as they enter the product with its queries.
    pub keys: KeyMatrix,
}

/// What is done with a head of a sequence.
#[derive(Debug, Clone, Copy, PartialEq, Eq, Structural)]
pub enum HeadStep {
    /// The queries `(tokens, head dim)` times the matrix of the keys.
    TimesKeys,
    /// Divided by the root of the head's length.
    Scale,
    /// The mask of the sequence is added.
    AddMask,
    /// Each row becomes shares of one.
    Softmax,
    /// Times the values `(tokens, head dim)`.
    TimesValues,
}

/// The steps of a head, in order.
pub open spec fn steps_of_head(masked: bool) -> Seq<HeadStep> {
    if masked {
        seq![
            HeadStep::TimesKeys,
            HeadStep::Scale,
            HeadStep::AddMask,
            HeadStep::Softmax,
            HeadStep::TimesValues,
        ]
    } else {
        seq![HeadStep::TimesKeys, HeadStep::Scale, HeadStep::Softmax, HeadStep::TimesValues]
    }
}

fn head_steps(masked: bool) -> (r: Vec<HeadStep>)
    ensures
        r@ == steps_of_head(masked),
{
    let mut steps: Vec<HeadStep> = Vec::new();
    steps.push(HeadStep::TimesKeys);
    steps.push(HeadStep::Scale);
    if masked {
        steps.push(HeadStep::AddMask);
    }
    steps.push(HeadStep::Softmax);
    steps.push(HeadStep::TimesValues);
    steps
}

/// The keys `(len, d)` of a head, transposed.
pub open spec fn transposed_keys(len: usize, d: usize) -> KeyMatrix {
    KeyMatrix { rows: d, cols: len, row_step: 1, col_step: d }
}

/// Column `j` of the transposed keys is the key of token `j`: its channel `x` stands
/// in row `x`. So the product gives every query its product with every key.
pub proof fn law_columns_are_keys(len: usize, d: usize, x: int, j: int)
    requires
        0 <= x < d,
        0 <= j < len,
    ensures
        ({
            let m = transposed_keys(len, d);
            let at = x * m.row_step + j * m.col_step;
            &&& x < m.rows && j < m.cols
            &&& at == j * d + x
            &&& at / (d as int) == j && at % (d as int) == x
            &&& 0 <= at < len * d
        }),
{
    vstd::arithmetic::div_mod::lemma_fundamental_div_mod_converse(j * d + x, d as int, j, x);
    assert(0 <= j * d && j * d + x < len * d) by (nonlinear_arith)
        requires
            0 <= x < d,
            0 <= j < len,
    ;
}

/// A prefill, sequence by sequence: the rows of a sequence go to the cache, then its
/// heads are computed. It may have to stop with an error; what goes before the error
/// has been done by then.
pub struct PrefillPlan {
    /// Query heads per KV head.
    pub group: usize,
    /// Length of a cache row.
    pub row: usize,
    /// The sequences whose rows go to the cache.
    pub seqs: Vec<PrefillSeq>,
    /// The KV head that each query head reads.
    pub kv_heads: Vec<usize>,
    /// The steps of each head.
    pub head_steps: Vec<HeadStep>,
    pub stop: Option<AttentionError>,
}

/// The sum of the first `i` lengths.
pub open spec fn seq_start(lens: Seq<usize>, i: int) -> int
    decreases i,
{
    if i <= 0 {
        0
    } else {
        seq_start(lens, i - 1) + lens[i - 1]
    }
}

/// The lengths of the sequences: those given, or all tokens as one sequence.
pub open spec fn prefill_lens(seqlens: Seq<usize>, tokens: usize) -> Seq<usize> {
    if seqlens.len() > 0 {
        seqlens
    } else {
        seq![tokens]
    }
}

/// The KV row of query head `h`: rows are repeated `group` times where a group has
/// more than one head. None where there is no such row.
pub open spec fn kv_row(h: int, hkv: int, group: int) -> Option<int> {
    let rows = if group > 1 {
        group * hkv
    } else {
        hkv
    };
    if h / group < rows {
        Some((h / group) % hkv)
    } else {
        None
    }
}

/// The first sequence that does not lie within the tokens.
pub open spec fn first_outside(lens: Seq<usize>, tokens: usize, n: int) -> Option<int>
    decreases n,
{
    if n <= 0 {
        None
    } else {
        match first_outside(lens, tokens, n - 1) {
            Some(i) => Some(i),
            None => if seq_start(lens, n) > tokens {
                Some(n - 1)
            } else {
                None
            },
        }
    }
}

/// The first query head without a KV row.
pub open spec fn first_headless(hkv: int, group: int, n: int) -> Option<int>
    decreases n,
{
    if n <= 0 {
        None
    } else {
        match first_headless(hkv, group, n - 1) {
            Some(i) => Some(i),
            None => if kv_row(n - 1, hkv, group) is None {
                Some(n - 1)
            } else {
                None
            },
        }
    }
}

proof fn lemma_headless_stays(hkv: int, group: int, m: int, n: int)
    requires
        0 <= m <= n,
        first_headless(hkv, group, m) is Some,
    ensures
        first_headless(hkv, group, n) == first_headless(hkv, group, m),
    decreases n,
{
    if m < n {
        lemma_headless_stays(hkv, group, m, n - 1);
    }
}

proof fn lemma_outside_stays(lens: Seq<usize>, tokens: usize, m: int, n: int)
    requires
        0 <= m <= n,
        first_outside(lens, tokens, m) is Some,
    ensures
        first_outside(lens, tokens, n) == first_outside(lens, tokens, m),
    decreases n,
{
    if m < n {
        lemma_outside_stays(lens, tokens, m, n - 1);
    }
}

/// Whether `seqs` are the first sequences, one after another, each with its own mask
/// and with transposed keys.
pub open spec fn are_placed(
    seqs: Seq<PrefillSeq>,
    lens: Seq<usize>,
    d: usize,
    masked: bool,
    n: int,
) -> bool {
    &&& seqs.len() == n
    &&& forall|i: int|
        0 <= i < n ==> (#[trigger] seqs[i]).tokens.start == seq_start(lens, i)
            && seqs[i].tokens.len == lens[i] && seqs[i].keys == transposed_keys(lens[i], d)
            && seqs[i].mask == if masked {
            Some(i as usize)
        } else {
            None
        }
}

/// How many sequences are reached: those before the first one that does not lie
/// within the tokens, and no more than one where a query head has no KV row.
pub open spec fn reached(tokens: usize, hq: int, hkv: int, lens: Seq<usize>) -> int {
    let inside = match first_outside(lens, tokens, lens.len() as int) {
        Some(i) => i,
        None => lens.len() as int,
    };
    if first_headless(hkv, hq / hkv, hq) is Some && inside > 1 {
        1
    } else {
        inside
    }
}

/// Whether `kv` are the KV heads of the first query heads.
pub open spec fn are_heads(kv: Seq<usize>, hkv: int, group: int, n: int) -> bool {
    &&& kv.len() == n
    &&& forall|h: int| 0 <= h < n ==> kv_row(h, hkv, group) == Some(#[trigger] kv[h] as int)
}

fn place_seqs(lens: &Vec<usize>, tokens: usize, d: usize, masked: bool) -> (r: (
    Vec<PrefillSeq>,
    bool,
))
    ensures
        match first_outside(lens@, tokens, lens@.len() as int) {
            Some(i) => !r.1 && 0 <= i < lens@.len() && are_placed(r.0@, lens@, d, masked, i),
            None => r.1 && are_placed(r.0@, lens@, d, masked, lens@.len() as int),
        },
{
    let n: usize = lens.len();
    let mut seqs: Vec<PrefillSeq> = Vec::with_capacity(n);
    let mut start: usize = 0;
    let mut i: usize = 0;
    while i < n
        invariant
            i <= n,
            n == lens@.len(),
            start == seq_start(lens@, i as int),
            start <= tokens,
            first_outside(lens@, tokens, i as int) is None,
            are_placed(seqs@, lens@, d, masked, i as int),
        decreases n - i,
    {
        let len: usize = lens[i];
        if len > tokens - start {
            proof {
                lemma_outside_stays(lens@, tokens, i as int + 1, n as int);
            }
            return (seqs, false);
        }
        seqs.push(
            PrefillSeq {
                tokens: Slice { start, len },
                mask: if masked {
                    Some(i)
                } else {
                    None
                },
                keys: KeyMatrix { rows: d, cols: len, row_step: 1, col_step: d },
            },
        );
        start = start + len;
        i += 1;
    }
    (seqs, true)
}

fn place_heads(hq: usize, hkv: usize, group: usize) -> (r: (Vec<usize>, bool))
    requires
        0 < hkv,
        hq > 0 ==> group >= 1,
        group * hkv <= usize::MAX,
    ensures
        match first_headless(hkv as int, group as int, hq as int) {
            Some(h) => !r.1 && 0 <= h < hq && are_heads(r.0@, hkv as int, group as int, h),
            None => r.1 && are_heads(r.0@, hkv as int, group as int, hq as int),
        },
{
    let rows: usize = if group > 1 {
        group * hkv
    } else {
        hkv
    };
    let mut kv_heads: Vec<usize> = Vec::new();
    let mut h: usize = 0;
    while h < hq
        invariant
            h <= hq,
            0 < hkv,
            hq > 0 ==> group >= 1,
            rows == if group > 1 {
                group * hkv
            } else {
                hkv as int
            },
            first_headless(hkv as int, group as int, h as int) is None,
            are_heads(kv_heads@, hkv as int, group as int, h as int),
        decreases hq - h,
    {
        let at: usize = h / group;
        if at >= rows {
            proof {
                lemma_headless_stays(hkv as int, group as int, h as int + 1, hq as int);
            }
            return (kv_heads, false);
        }
        kv_heads.push(at % hkv);
        h += 1;
    }
    (kv_heads, true)
}

/// `p` is the prefill of `hq` query heads over `hkv` KV heads of length `d`. A query
/// head without a KV row stops the first sequence, after its rows; a sequence beyond
/// the tokens stops before its rows.
pub open spec fn is_prefill_plan(
    p: PrefillPlan,
    tokens: usize,
    hq: int,
    hkv: int,
    d: usize,
    lens: Seq<usize>,
    masked: bool,
) -> bool {
    let group = hq / hkv;
    let outside = first_outside(lens, tokens, lens.len() as int);
    let headless = first_headless(hkv, group, hq);
    &&& p.group == group
    &&& p.row == hkv * d
    &&& p.head_steps@ == steps_of_head(masked)
    &&& are_heads(
        p.kv_heads@,
        hkv,
        group,
        match headless {
            Some(h) => h,
            None => hq,
        },
    )
    &&& if outside == Some(0int) {
        p.seqs@.len() == 0 && p.stop == Some(AttentionError::TokenRange { seq: 0 })
    } else if headless is Some {
        are_placed(p.seqs@, lens, d, masked, 1) && p.stop == Some(
            AttentionError::KvHeadRange { head: headless->Some_0 as usize },
        )
    } else if outside is Some {
        are_placed(p.seqs@, lens, d, masked, outside->Some_0) && p.stop == Some(
            AttentionError::TokenRange { seq: outside->Some_0 as usize },
        )
    } else {
        are_placed(p.seqs@, lens, d, masked, lens.len() as int) && p.stop is None
    }
}

/// Plans a prefill over `tokens` tokens. Sequence `s` takes mask `s` of `masks`, where
/// masks are given.
pub fn plan_prefill(
    tokens: usize,
    hq: usize,
    hkv: usize,
    d: usize,
    seqlens: &[usize],
    masks: Option<usize>,
) -> (p: PrefillPlan)
    requires
        0 < hkv,
        hq > 0 ==> hkv <= hq,
        hkv * d <= usize::MAX,
        masks matches Some(n) ==> reached(
            tokens,
            hq as int,
            hkv as int,
            prefill_lens(seqlens@, tokens),
        ) <= n,
    ensures
        is_prefill_plan(
            p,
            tokens,
            hq as int,
            hkv as int,
            d,
            prefill_lens(seqlens@, tokens),
            masks is Some,
        ),
{
    let group: usize = hq / hkv;
    proof {
        assert((hq > 0 ==> group >= 1) && 0 <= group * hkv <= hq) by (nonlinear_arith)
            requires
                group == hq as int / hkv as int,
                0 < hkv,
                hq > 0 ==> hkv <= hq,
                hq >= 0,
        ;
        assert(hkv * d >= 0) by (nonlinear_arith);
    }
    let row: usize = hkv * d;
    let mut lens: Vec<usize> = super::shape::copy_dims(seqlens);
    if lens.len() == 0 {
        lens.push(tokens);
    }
    assert(lens@ =~= prefill_lens(seqlens@, tokens));
    let (placed, all_seqs): (Vec<PrefillSeq>, bool) = place_seqs(&lens, tokens, d, masks.is_some());
    let (kv_heads, all_heads): (Vec<usize>, bool) = place_heads(hq, hkv, group);
    let mut seqs: Vec<PrefillSeq> = placed;
    let stop: Option<AttentionError> = if seqs.len() == 0 {
        Some(AttentionError::TokenRange { seq: 0 })
    } else if !all_heads {
        seqs.truncate(1);
        Some(AttentionError::KvHeadRange { head: kv_heads.len() })
    } else if !all_seqs {
        Some(AttentionError::TokenRange { seq: seqs.len() })
    } else {
        None
    };
    PrefillPlan { group, row, seqs, kv_heads, head_steps: head_steps(masks.is_some()), stop }
}

proof fn lemma_starts_ascend(lens: Seq<usize>, i: int, j: int)
    requires
        0 <= i <= j,
    ensures
        0 <= seq_start(lens, i) <= seq_start(lens, j),
    decreases j,
{
    if i < j {
        lemma_starts_ascend(lens, i, j - 1);
    } else if j > 0 {
        lemma_starts_ascend(lens, i - 1, j - 1);
    }
}

/// Sequences whose lengths add up to the tokens lie within them, and every token
/// belongs to exactly one of them.
pub proof fn law_sequences_cover_tokens(lens: Seq<usize>, tokens: usize, t: int)
    requires
        seq_start(lens, lens.len() as int) == tokens,
        0 <= t < tokens,
    ensures
        first_outside(lens, tokens, lens.len() as int) is None,
        exists|s: int|
            0 <= s < lens.len() && #[trigger] seq_start(lens, s) <= t < seq_start(lens, s)
                + lens[s],
        forall|a: int, b: int|
            0 <= a < lens.len() && 0 <= b < lens.len() && #[trigger] seq_start(lens, a) <= t
                < seq_start(lens, a) + lens[a] && #[trigger] seq_start(lens, b) <= t < seq_start(
                lens,
                b,
            ) + lens[b] ==> a == b,
{
    lemma_none_outside(lens, tokens, lens.len() as int);
    lemma_token_in_prefix(lens, t, lens.len() as int);
    assert forall|a: int, b: int|
        0 <= a < lens.len() && 0 <= b < lens.len() && #[trigger] seq_start(lens, a) <= t
            < seq_start(lens, a) + lens[a] && #[trigger] seq_start(lens, b) <= t < seq_start(lens, b)
            + lens[b] implies a == b by {
        assert(seq_start(lens, a + 1) == seq_start(lens, a) + lens[a]);
        assert(seq_start(lens, b + 1) == seq_start(lens, b) + lens[b]);
        if a < b {
            lemma_starts_ascend(lens, a + 1, b);
        } else if b < a {
            lemma_starts_ascend(lens, b + 1, a);
        }
    }
}

proof fn lemma_none_outside(lens: Seq<usize>, tokens: usize, n: int)
    requires
        0 <= n <= lens.len(),
        seq_start(lens, lens.len() as int) == tokens,
    ensures
        first_outside(lens, tokens, n) is None,
    decreases n,
{
    if n > 0 {
        lemma_none_outside(lens, tokens, n - 1);
        lemma_starts_ascend(lens, n, lens.len() as int);
    }
}

proof fn lemma_token_in_prefix(lens: Seq<usize>, t: int, n: int)
    requires
        0 <= n <= lens.len(),
        0 <= t < seq_start(lens, n),
    ensures
        exists|s: int|
            0 <= s < n && #[trigger] seq_start(lens, s) <= t < seq_start(lens, s) + lens[s],
    decreases n,
{
    if n > 0 {
        if t < seq_start(lens, n - 1) {
            lemma_token_in_prefix(lens, t, n - 1);
        } else {
            assert(seq_start(lens, n - 1) <= t < seq_start(lens, n - 1) + lens[n - 1]);
        }
    }
}

/// Where query heads divide evenly over KV heads, every query head has a KV row,
/// and head `h` reads KV head `h / group`.
pub proof fn law_even_groups_read_their_head(hq: int, hkv: int, h: int)
    requires
        hkv > 0,
        hq > 0,
        hq % hkv == 0,
        0 <= h < hq,
    ensures
        kv_row(h, hkv, hq / hkv) == Some(h / (hq / hkv)),
{
    let group = hq / hkv;
    vstd::arithmetic::div_mod::lemma_fundamental_div_mod(hq, hkv);
    assert(group > 0 && h / group < hkv && 0 <= h / group) by (nonlinear_arith)
        requires
            hkv * group == hq,
            hkv > 0,
            hq > 0,
            0 <= h < hq,
    {
        assert(group > 0);
        let q = h / group;
        assert(h == q * group + h % group);
        assert(q < hkv) by {
            if q >= hkv {
                assert(q * group >= hkv * group);
            }
        }
    }
    vstd::arithmetic::div_mod::lemma_small_mod((h / group) as nat, hkv as nat);
    assert(group * hkv >= hkv) by (nonlinear_arith)
        requires
            group >= 1,
            hkv > 0,
    ;
}

/// The cache rows of a prefill: token `t` goes to row `t`, at this byte.
pub fn cache_row_offset(t: usize, row: usize) -> (r: usize)
    requires
        t * row * 4 <= usize::MAX,
    ensures
        r == t * row * 4,
{
    proof {
        assert(t * row >= 0) by (nonlinear_arith);
    }
    t * row * 4
}

/// The length of the query chunks of plain attention.
pub const CHUNK: usize = 1024;

/// The chunks of `seq_len` queries: all of the same length but the last one.
pub fn query_chunks(seq_len: usize) -> (r: Vec<Slice>)
    ensures
        r@.len() == ceil_div(seq_len as int, 1024),
        forall|c: int| 0 <= c < r@.len() ==> #[trigger] r@[c] == chunk_of(seq_len, c),
{
    let mut r: Vec<Slice> = Vec::new();
    let mut offset: usize = 0;
    while offset < seq_len
        invariant
            offset <= seq_len,
            offset == 1024 * r@.len() || (offset == seq_len && 1024 * (r@.len() - 1) < seq_len
                <= 1024 * r@.len()),
            forall|c: int| 0 <= c < r@.len() ==> #[trigger] r@[c] == chunk_of(seq_len, c),
        decreases seq_len - offset,
    {
        let rest: usize = seq_len - offset;
        let len: usize = if rest < CHUNK {
            rest
        } else {
            CHUNK
        };
        r.push(Slice { start: offset, len });
        offset = offset + len;
    }
    r
}

/// The chunks tile the queries: each starts where the one before ends, none is
/// empty, and the last one ends at `seq_len`.
pub proof fn law_query_chunks_tile(seq_len: usize, c: int)
    requires
        0 <= c < ceil_div(seq_len as int, 1024),
    ensures
        ({
            let chunk = chunk_of(seq_len, c);
            &&& 0 < chunk.len
            &&& chunk_of(seq_len, 0).start == 0
            &&& c + 1 < ceil_div(seq_len as int, 1024) ==> chunk.start + chunk.len == chunk_of(
                seq_len,
                c + 1,
            ).start
            &&& c + 1 == ceil_div(seq_len as int, 1024) ==> chunk.start + chunk.len == seq_len
        }),
{
}

/// The name of a projection of plain attention.
pub fn naive_name(fallback: &'static str, is_qvar_builder: bool) -> (r: &'static str)
    ensures
        r@ == if !is_qvar_builder {
            fallback@
        } else if fallback@ == "q_proj"@ {
            "attn_q"@
        } else if fallback@ == "k_proj"@ {
            "attn_k"@
        } else if fallback@ == "v_proj"@ {
            "attn_v"@
        } else if fallback@ == "o_proj"@ {
            "attn_output"@
        } else {
            fallback@
        },
{
    if !is_qvar_builder {
        return fallback;
    }
    if text::same_text(fallback, "q_proj") {
        "attn_q"
    } else if text::same_text(fallback, "k_proj") {
        "attn_k"
    } else if text::same_text(fallback, "v_proj") {
        "attn_v"
    } else if text::same_text(fallback, "o_proj") {
        "attn_output"
    } else {
        fallback
    }
}

/// Plain attention with whole projections.
pub struct NaiveAttention {
    pub q_proj: ReplicatedLinear,
    pub k_proj: ReplicatedLinear,
    pub v_proj: ReplicatedLinear,
    pub o_proj: ReplicatedLinear,
    pub num_heads: usize,
    pub head_dim: usize,
    /// The cap of the scores, as the bits of a double, where there is one.
    pub softcapping: Option<u64>,
}

/// A step of plain attention.
#[derive(Debug, Clone, Copy, PartialEq, Eq)]
pub enum NaiveStep {
    /// Project queries, keys and values.
    Project,
    /// Shape queries and keys `(tokens, heads, head dim)`.
    ShapeQk((usize, usize, usize)),
    /// Shape the values `(batch, tokens, heads, head dim)` and swap the middle two.
    ShapeV((usize, usize, usize, usize)),
    /// Rotate queries and keys by their positions, where the embedding rotates them.
    Rotate,
    /// Shape queries and keys `(batch, tokens, heads, head dim)` and swap the middle two.
    SwapQk((usize, usize, usize, usize)),
    /// Make the steps of a chunk of queries.
    Chunk(Slice),
    /// Put the chunks behind each other, along the queries.
    JoinChunks,
    /// Drop the batch, and swap heads and tokens.
    SwapOutput,
    /// Shape the output `(batch, tokens, heads * head dim)`.
    Flatten((usize, usize, usize)),
    /// Apply the last projection.
    ProjectOutput,
}

/// A step of a chunk of queries.
#[derive(Debug, Clone, Copy, PartialEq, Eq, Structural)]
pub enum ChunkStep {
    /// The queries of the chunk times the keys of all tokens: the scores.
    TimesKeys(Slice),
    /// Divided by the root of the head's length.
    Scale,
    /// Divided by the cap, put through the hyperbolic tangent, and times the cap.
    Cap(u64),
    /// The rows of the mask that belong to the chunk are added.
    AddMask(Slice),
    /// The scores in singles.
    ToSingles,
    /// Each row becomes shares of one.
    Softmax,
    /// The shares in the type that the scores had.
    BackToType,
    /// Times the values of all tokens.
    TimesValues,
}

/// Chunk `c` of the queries.
pub open spec fn chunk_of(seq_len: usize, c: int) -> Slice {
    Slice {
        start: (1024 * c) as usize,
        len: if seq_len - 1024 * c < 1024 {
            (seq_len - 1024 * c) as usize
        } else {
            1024
        },
    }
}

/// The shapes of plain attention.
#[derive(Debug, Clone, Copy, PartialEq, Eq)]
pub struct NaiveShapes {
    /// `(tokens, heads, head dim)`, in which queries and keys are rotated.
    pub packed: (usize, usize, usize),
    /// `(batch, tokens, heads, head dim)`, of which the middle two are swapped.
    pub heads: (usize, usize, usize, usize),
    /// `(batch, tokens, heads * head dim)`.
    pub output: (usize, usize, usize),
}

impl NaiveAttention {
    /// Four projections from and to the hidden size. The last one may stand under
    /// another name.
    pub fn new(
        vb: &VarBuilderX,
        num_heads: usize,
        hidden_size: usize,
        head_dim: usize,
        softcapping: Option<u64>,
        dtype: Dtype,
        o_proj_name: Option<&str>,
    ) -> (r: Self)
        requires
            !vb.is_gguf,
        ensures
            ({
                let whole = Shard { dim: 0, rank: 0, world_size: 0 };
                &&& r.q_proj.path@ == vb.name_of("q_proj"@)
                &&& r.k_proj.path@ == vb.name_of("k_proj"@)
                &&& r.v_proj.path@ == vb.name_of("v_proj"@)
                &&& r.o_proj.path@ == vb.name_of(
                    match o_proj_name {
                        Some(n) => n@,
                        None => "o_proj"@,
                    },
                )
                &&& r.q_proj.inner.is_plain(hidden_size, hidden_size, whole, dtype, false)
                &&& r.k_proj.inner.is_plain(hidden_size, hidden_size, whole, dtype, false)
                &&& r.v_proj.inner.is_plain(hidden_size, hidden_size, whole, dtype, false)
                &&& r.o_proj.inner.is_plain(hidden_size, hidden_size, whole, dtype, false)
                &&& r.num_heads == num_heads
                &&& r.head_dim == head_dim
                &&& r.softcapping == softcapping
            }),
    {
        let qvar: bool = vb.is_qvar_builder();
        let q_vb: VarBuilderX = vb.pp(naive_name("q_proj", qvar));
        let k_vb: VarBuilderX = vb.pp(naive_name("k_proj", qvar));
        let v_vb: VarBuilderX = vb.pp(naive_name("v_proj", qvar));
        let o_vb: VarBuilderX = match o_proj_name {
            Some(n) => vb.pp(n),
            None => vb.pp(naive_name("o_proj", qvar)),
        };
        NaiveAttention {
            q_proj: ReplicatedLinear::load_b(hidden_size, hidden_size, true, &q_vb, dtype),
            k_proj: ReplicatedLinear::load_b(hidden_size, hidden_size, true, &k_vb, dtype),
            v_proj: ReplicatedLinear::load_b(hidden_size, hidden_size, true, &v_vb, dtype),
            o_proj: ReplicatedLinear::load_b(hidden_size, hidden_size, true, &o_vb, dtype),
            num_heads,
            head_dim,
            softcapping,
        }
    }

    /// The shapes for a batch of sequences.
    pub open spec fn shapes_of(&self, batch: usize, seq_len: usize) -> NaiveShapes {
        NaiveShapes {
            packed: (seq_len, self.num_heads, self.head_dim),
            heads: (batch, seq_len, self.num_heads, self.head_dim),
            output: (batch, seq_len, (self.num_heads * self.head_dim) as usize),
        }
    }

    /// The steps of a chunk, in order: keys, scale, cap, mask, shares and values.
    pub open spec fn chunk_steps(&self, queries: Slice, masked: bool) -> Seq<ChunkStep> {
        seq![ChunkStep::TimesKeys(queries), ChunkStep::Scale] + match self.softcapping {
            Some(cap) => seq![ChunkStep::Cap(cap)],
            None => Seq::empty(),
        } + if masked {
            seq![ChunkStep::AddMask(queries)]
        } else {
            Seq::empty()
        } + seq![
            ChunkStep::ToSingles,
            ChunkStep::Softmax,
            ChunkStep::BackToType,
            ChunkStep::TimesValues,
        ]
    }

    /// The steps before the chunks.
    pub open spec fn prepare_steps(&self, shapes: NaiveShapes, rotates: bool) -> Seq<NaiveStep> {
        let shaped = seq![
            NaiveStep::Project,
            NaiveStep::ShapeQk(shapes.packed),
            NaiveStep::ShapeV(shapes.heads),
        ];
        if rotates {
            shaped + seq![NaiveStep::Rotate, NaiveStep::SwapQk(shapes.heads)]
        } else {
            shaped + seq![NaiveStep::SwapQk(shapes.heads)]
        }
    }

    /// The steps of a forward pass, in order.
    pub open spec fn forward_steps(&self, batch: usize, seq_len: usize, rotates: bool) -> Seq<
        NaiveStep,
    > {
        let shapes = self.shapes_of(batch, seq_len);
        self.prepare_steps(shapes, rotates) + Seq::new(
            ceil_div(seq_len as int, 1024) as nat,
            |c: int| NaiveStep::Chunk(chunk_of(seq_len, c)),
        ) + seq![
            NaiveStep::JoinChunks,
            NaiveStep::SwapOutput,
            NaiveStep::Flatten(shapes.output),
            NaiveStep::ProjectOutput,
        ]
    }

    /// The steps of a chunk of queries, with a mask or without one.
    pub fn chunk(&self, queries: Slice, masked: bool) -> (r: Vec<ChunkStep>)
        ensures
            r@ == self.chunk_steps(queries, masked),
    {
        let mut steps: Vec<ChunkStep> = Vec::new();
        steps.push(ChunkStep::TimesKeys(queries));
        steps.push(ChunkStep::Scale);
        if let Some(cap) = self.softcapping {
            steps.push(ChunkStep::Cap(cap));
        }
        if masked {
            steps.push(ChunkStep::AddMask(queries));
        }
        steps.push(ChunkStep::ToSingles);
        steps.push(ChunkStep::Softmax);
        steps.push(ChunkStep::BackToType);
        steps.push(ChunkStep::TimesValues);
        assert(steps@ =~= self.chunk_steps(queries, masked));
        steps
    }

    /// Plans a forward pass. Queries and keys are rotated where positions are given.
    pub fn forward(&self, batch: usize, seq_len: usize, has_positions: bool) -> (r: Vec<NaiveStep>)
        requires
            self.num_heads * self.head_dim <= usize::MAX,
        ensures
            r@ == self.forward_steps(batch, seq_len, has_positions),
    {
        proof {
            assert(self.num_heads * self.head_dim >= 0) by (nonlinear_arith);
        }
        let shapes: NaiveShapes = NaiveShapes {
            packed: (seq_len, self.num_heads, self.head_dim),
            heads: (batch, seq_len, self.num_heads, self.head_dim),
            output: (batch, seq_len, self.num_heads * self.head_dim),
        };
        let mut steps: Vec<NaiveStep> = Vec::new();
        steps.push(NaiveStep::Project);
        steps.push(NaiveStep::ShapeQk(shapes.packed));
        steps.push(NaiveStep::ShapeV(shapes.heads));
        if has_positions {
            steps.push(NaiveStep::Rotate);
        }
        steps.push(NaiveStep::SwapQk(shapes.heads));
        let ghost prepared = steps@;
        assert(prepared =~= self.prepare_steps(shapes, has_positions));
        let chunks: Vec<Slice> = query_chunks(seq_len);
        let n: usize = chunks.len();
        let mut c: usize = 0;
        while c < n
            invariant
                c <= n,
                n == chunks@.len(),
                forall|i: int| 0 <= i < n ==> #[trigger] chunks@[i] == chunk_of(seq_len, i),
                steps@ == prepared + Seq::new(
                    c as nat,
                    |i: int| NaiveStep::Chunk(chunk_of(seq_len, i)),
                ),
            decreases n - c,
        {
            steps.push(NaiveStep::Chunk(chunks[c]));
            c += 1;
            assert(steps@ =~= prepared + Seq::new(
                c as nat,
                |i: int| NaiveStep::Chunk(chunk_of(seq_len, i)),
            ));
        }
        steps.push(NaiveStep::JoinChunks);
        steps.push(NaiveStep::SwapOutput);
        steps.push(NaiveStep::Flatten(shapes.output));
        steps.push(NaiveStep::ProjectOutput);
        assert(steps@ =~= self.forward_steps(batch, seq_len, has_positions));
        steps
    }
}

} // verus!
