//! Gated delta net: a linear attention layer with a short convolution and a
//! recurrent state per sequence.
//!
//! The rules here size the layer for a rank, say which weights are requested and
//! how they are cut, choose the projection that a checkpoint offers, and check
//! and order the steps of a forward pass.

use super::distributed::Comm;
use super::linear::Slice;
use super::tensor::Shard;
use super::var_builder::{collect_key_map, KeyMap, ModuleAt, VarBuilderX};
use crate::config::Config;
use crate::dtype::Dtype;
use crate::text;
use vstd::prelude::*;
use vstd::string::StringExecFns;

verus! {

/// The linear attention settings of a checkpoint, for all ranks together.
#[derive(Debug, Clone, Copy, PartialEq, Eq, Structural)]
pub struct HybridConfig {
    pub num_v_heads: usize,
    pub num_k_heads: usize,
    pub key_head_dim: usize,
    pub value_head_dim: usize,
    pub conv_kernel_size: usize,
}

/// The sizes of the layer: for all ranks and for one.
#[derive(Debug, Clone, Copy, PartialEq, Eq, Structural)]
pub struct GdnDims {
    pub num_v_heads_global: usize,
    pub num_k_heads_global: usize,
    pub key_dim_global: usize,
    pub value_dim_global: usize,
    pub conv_dim_global: usize,
    pub num_v_heads: usize,
    pub num_k_heads: usize,
    pub head_k_dim: usize,
    pub head_v_dim: usize,
    pub key_dim: usize,
    pub value_dim: usize,
    /// Value heads that share a key head.
    pub kv_group_size: usize,
    pub conv_kernel_size: usize,
    /// Channels of the convolution on this rank.
    pub d_conv: usize,
}

/// What the layer refuses.
#[derive(Debug, Clone, Copy, PartialEq, Eq, Structural)]
pub enum GdnError {
    /// Value heads do not divide over key heads.
    HeadGroups { num_v_heads: usize, num_k_heads: usize },
    /// Heads do not divide over the ranks.
    HeadRanks { num_v_heads: usize, num_k_heads: usize, world_size: usize },
    /// No sequence to work on.
    NoSlots,
    /// Decoding takes one token per sequence.
    DecodeMismatch { tokens: usize, slots: usize },
    /// A merged projection has three chunks.
    MergedChunks { got: usize },
    MissingConvSnapshot { layer: usize },
    MissingRecurrentSnapshot { layer: usize },
    /// A verification of more tokens than there are snapshots.
    SnapshotTokens { tokens: usize, len: usize },
    /// Snapshots of the convolution are not taken.
    ConvSnapshotsClosed,
    /// Snapshots of the recurrence are not taken.
    RecurrentSnapshotsClosed,
    /// Only singles are computed.
    NotF32 { dtype: Dtype },
    /// The convolution takes `(tokens, channels)`.
    ConvRank { rank: usize },
    /// One more sequence bound than sequences.
    BoundsMismatch { bounds: usize, rows: usize },
    /// The last sequence bound is the number of tokens.
    BoundsTotal { last: u32, total: usize },
    /// The recurrence takes `(tokens, heads, dim)`.
    QueryRank { rank: usize },
    /// Query and value differ in tokens or rank.
    ValueTokens,
    /// Value heads do not divide over key heads.
    GroupMapping { nv: usize, nk: usize },
    SlotOutOfRange { max: u32, rows: usize },
    /// A sequence without a slot.
    SlotSentinel { seq: usize },
    /// A sequence bound beyond the tokens.
    TokenOutOfRange { seq: usize },
    RollbackOverflow { layer: usize },
    SnapshotRange { index: usize, len: usize, offset: usize, keep: usize },
}

/// The sizes for a rank of `world_size`, where the heads divide.
pub open spec fn dims_for(h: HybridConfig, world_size: int) -> GdnDims {
    let nv = h.num_v_heads as int / world_size;
    let nk = h.num_k_heads as int / world_size;
    GdnDims {
        num_v_heads_global: h.num_v_heads,
        num_k_heads_global: h.num_k_heads,
        key_dim_global: (h.num_k_heads * h.key_head_dim) as usize,
        value_dim_global: (h.num_v_heads * h.value_head_dim) as usize,
        conv_dim_global: (2 * (h.num_k_heads * h.key_head_dim) + h.num_v_heads
            * h.value_head_dim) as usize,
        num_v_heads: nv as usize,
        num_k_heads: nk as usize,
        head_k_dim: h.key_head_dim,
        head_v_dim: h.value_head_dim,
        key_dim: (nk * h.key_head_dim) as usize,
        value_dim: (nv * h.value_head_dim) as usize,
        kv_group_size: (nv / nk) as usize,
        conv_kernel_size: h.conv_kernel_size,
        d_conv: (2 * (nk * h.key_head_dim) + nv * h.value_head_dim) as usize,
    }
}

/// The sizes of the layer, or why the heads do not divide.
pub open spec fn resolved_dims(h: HybridConfig, world_size: int) -> Result<GdnDims, GdnError> {
    if h.num_v_heads as int % h.num_k_heads as int != 0 {
        Err(GdnError::HeadGroups { num_v_heads: h.num_v_heads, num_k_heads: h.num_k_heads })
    } else if h.num_v_heads as int % world_size != 0 || h.num_k_heads as int % world_size != 0 {
        Err(
            GdnError::HeadRanks {
                num_v_heads: h.num_v_heads,
                num_k_heads: h.num_k_heads,
                world_size: world_size as usize,
            },
        )
    } else {
        Ok(dims_for(h, world_size))
    }
}

proof fn lemma_local_heads(n: int, parts: int, dim: int)
    by (nonlinear_arith)
    requires
        parts > 0,
        n >= 0,
        dim >= 0,
        n % parts == 0,
    ensures
        0 <= n / parts <= n,
        0 <= (n / parts) * dim <= n * dim,
        n > 0 ==> n / parts > 0,
        parts * ((n / parts) * dim) == n * dim,
{
    let c = n / parts;
    assert(n == parts * c);
    assert(c <= parts * c) by {
        assert(parts >= 1);
    }
    assert(n * dim == parts * (c * dim));
}

impl GdnDims {
    /// Sizes the layer for a rank.
    pub fn resolve(h: &HybridConfig, comm: &Comm) -> (r: Result<GdnDims, GdnError>)
        requires
            h.num_k_heads > 0,
            comm.world_size > 0,
            resolved_dims(*h, comm.world_size as int) is Ok ==> 2 * (h.num_k_heads * h.key_head_dim)
                + h.num_v_heads * h.value_head_dim <= usize::MAX,
        ensures
            r == resolved_dims(*h, comm.world_size as int),
    {
        let world_size: usize = comm.world_size;
        if h.num_v_heads % h.num_k_heads != 0 {
            return Err(
                GdnError::HeadGroups { num_v_heads: h.num_v_heads, num_k_heads: h.num_k_heads },
            );
        }
        if h.num_v_heads % world_size != 0 || h.num_k_heads % world_size != 0 {
            return Err(
                GdnError::HeadRanks {
                    num_v_heads: h.num_v_heads,
                    num_k_heads: h.num_k_heads,
                    world_size,
                },
            );
        }
        proof {
            lemma_local_heads(h.num_v_heads as int, world_size as int, h.value_head_dim as int);
            lemma_local_heads(h.num_k_heads as int, world_size as int, h.key_head_dim as int);
            assert(h.num_v_heads * h.value_head_dim >= 0) by (nonlinear_arith);
            assert(h.num_k_heads * h.key_head_dim >= 0) by (nonlinear_arith);
        }
        let num_v_heads: usize = h.num_v_heads / world_size;
        let num_k_heads: usize = h.num_k_heads / world_size;
        let key_dim_global: usize = h.num_k_heads * h.key_head_dim;
        let value_dim_global: usize = h.num_v_heads * h.value_head_dim;
        let key_dim: usize = num_k_heads * h.key_head_dim;
        let value_dim: usize = num_v_heads * h.value_head_dim;
        Ok(
            GdnDims {
                num_v_heads_global: h.num_v_heads,
                num_k_heads_global: h.num_k_heads,
                key_dim_global,
                value_dim_global,
                conv_dim_global: key_dim_global * 2 + value_dim_global,
                num_v_heads,
                num_k_heads,
                head_k_dim: h.key_head_dim,
                head_v_dim: h.value_head_dim,
                key_dim,
                value_dim,
                kv_group_size: num_v_heads / num_k_heads,
                conv_kernel_size: h.conv_kernel_size,
                d_conv: key_dim * 2 + value_dim,
            },
        )
    }

    /// The sizes are consistent: they are those of some settings on some number
    /// of ranks.
    pub open spec fn wf(&self) -> bool {
        &&& self.key_dim == self.num_k_heads * self.head_k_dim
        &&& self.value_dim == self.num_v_heads * self.head_v_dim
        &&& self.num_v_heads == self.num_k_heads * self.kv_group_size
        &&& self.key_dim_global == self.num_k_heads_global * self.head_k_dim
        &&& self.value_dim_global == self.num_v_heads_global * self.head_v_dim
        &&& self.conv_dim_global == 2 * self.key_dim_global + self.value_dim_global
        &&& self.d_conv == 2 * self.key_dim + self.value_dim
        &&& self.num_k_heads > 0
        &&& self.key_dim <= self.key_dim_global
        &&& self.value_dim <= self.value_dim_global
    }
}

/// Resolved sizes are consistent: a rank holds whole key head groups, and all
/// ranks together hold all key and value channels.
pub proof fn law_resolved_dims_are_consistent(h: HybridConfig, world_size: int)
    requires
        h.num_k_heads > 0,
        world_size > 0,
        2 * (h.num_k_heads * h.key_head_dim) + h.num_v_heads * h.value_head_dim <= usize::MAX,
        h.num_v_heads as int % h.num_k_heads as int == 0,
        h.num_v_heads as int % world_size == 0,
        h.num_k_heads as int % world_size == 0,
    ensures
        dims_for(h, world_size).wf(),
        world_size * dims_for(h, world_size).key_dim == dims_for(h, world_size).key_dim_global,
        world_size * dims_for(h, world_size).value_dim == dims_for(h, world_size).value_dim_global,
        world_size * dims_for(h, world_size).d_conv == dims_for(h, world_size).conv_dim_global,
{
    let nvg = h.num_v_heads as int;
    let nkg = h.num_k_heads as int;
    lemma_local_heads(nvg, world_size, h.value_head_dim as int);
    lemma_local_heads(nkg, world_size, h.key_head_dim as int);
    let nv = nvg / world_size;
    let nk = nkg / world_size;
    assert(nvg * h.value_head_dim >= 0) by (nonlinear_arith)
        requires
            nvg >= 0,
            h.value_head_dim >= 0,
    ;
    lemma_group(nvg, nkg, nv, nk, world_size);
    assert(world_size * (2 * (nk * h.key_head_dim) + nv * h.value_head_dim) == 2 * (world_size * (nk
        * h.key_head_dim)) + world_size * (nv * h.value_head_dim)) by (nonlinear_arith);
}

proof fn lemma_rank_part(rank: int, parts: int, len: int)
    by (nonlinear_arith)
    requires
        0 <= rank < parts,
        len >= 0,
    ensures
        0 <= rank * len,
        rank * len + len <= parts * len,
{
    assert((rank + 1) * len <= parts * len);
}

proof fn lemma_group(nvg: int, nkg: int, nv: int, nk: int, w: int)
    requires
        w > 0,
        nkg > 0,
        nvg >= 0,
        nvg % nkg == 0,
        nvg % w == 0,
        nkg % w == 0,
        nv == nvg / w,
        nk == nkg / w,
    ensures
        nk > 0,
        nv == nk * (nv / nk),
        0 <= nv / nk,
{
    let g = nvg / nkg;
    vstd::arithmetic::div_mod::lemma_fundamental_div_mod(nvg, nkg);
    vstd::arithmetic::div_mod::lemma_fundamental_div_mod(nvg, w);
    vstd::arithmetic::div_mod::lemma_fundamental_div_mod(nkg, w);
    assert(nk > 0) by (nonlinear_arith)
        requires
            w * nk == nkg,
            nkg > 0,
            w > 0,
    ;
    assert(w * nv == w * (nk * g)) by (nonlinear_arith)
        requires
            w * nv == nvg,
            w * nk == nkg,
            nkg * g == nvg,
    ;
    assert(nv == nk * g) by (nonlinear_arith)
        requires
            w * nv == w * (nk * g),
            w > 0,
    ;
    assert(g * nk + 0 == nv) by (nonlinear_arith)
        requires
            nv == nk * g,
    ;
    vstd::arithmetic::div_mod::lemma_fundamental_div_mod_converse(nv, nk, g, 0);
    assert(g >= 0) by (nonlinear_arith)
        requires
            nkg * g == nvg,
            nkg > 0,
            nvg >= 0,
    ;
}

/// Stretches of query, key and value channels.
#[derive(Debug, Clone, Copy, PartialEq, Eq, Structural)]
pub struct ConvSlices {
    pub q: Slice,
    pub k: Slice,
    pub v: Slice,
}

impl GdnDims {
    /// Where the query, key and value channels of a rank lie among the channels
    /// `[q | k | v]` of all ranks.
    pub fn conv_slices(&self, comm: &Comm) -> (r: ConvSlices)
        requires
            self.wf(),
            comm.rank < comm.world_size,
            comm.world_size * self.key_dim == self.key_dim_global,
            comm.world_size * self.value_dim == self.value_dim_global,
        ensures
            r.q.start == comm.rank * self.key_dim,
            r.q.len == self.key_dim,
            r.k.start == self.key_dim_global + comm.rank * self.key_dim,
            r.k.len == self.key_dim,
            r.v.start == 2 * self.key_dim_global + comm.rank * self.value_dim,
            r.v.len == self.value_dim,
            r.q.start + r.q.len <= self.key_dim_global,
            r.k.start + r.k.len <= 2 * self.key_dim_global,
            r.v.start + r.v.len <= self.conv_dim_global,
            r.q.len + r.k.len + r.v.len == self.d_conv,
    {
        proof {
            lemma_rank_part(comm.rank as int, comm.world_size as int, self.key_dim as int);
            lemma_rank_part(comm.rank as int, comm.world_size as int, self.value_dim as int);
        }
        ConvSlices {
            q: Slice { start: comm.rank * self.key_dim, len: self.key_dim },
            k: Slice { start: self.key_dim_global + comm.rank * self.key_dim, len: self.key_dim },
            v: Slice {
                start: self.key_dim_global * 2 + comm.rank * self.value_dim,
                len: self.value_dim,
            },
        }
    }

    /// The columns `[q | k | v]` of queries, keys and values on a rank.
    pub open spec fn columns_of(&self) -> ConvSlices {
        ConvSlices {
            q: Slice { start: 0, len: self.key_dim },
            k: Slice { start: self.key_dim, len: self.key_dim },
            v: Slice { start: (2 * self.key_dim) as usize, len: self.value_dim },
        }
    }

    /// The columns `[q | k | v]` of queries, keys and values on a rank.
    pub fn columns(&self) -> (r: ConvSlices)
        requires
            self.wf(),
        ensures
            r == self.columns_of(),
            r.v.start + r.v.len == self.d_conv,
    {
        ConvSlices {
            q: Slice { start: 0, len: self.key_dim },
            k: Slice { start: self.key_dim, len: self.key_dim },
            v: Slice { start: self.key_dim * 2, len: self.value_dim },
        }
    }
}

/// How a weight of the layer is stored.
#[derive(Debug, Clone, Copy, PartialEq, Eq, Structural)]
pub enum WeightQuant {
    /// As the quantization settings say.
    AsConfigured,
    /// In 8 bit floats, though the settings say NVFP4.
    Fp8,
    /// Not quantized.
    Plain,
}

/// Whether the listed names are those of a quantization method.
pub open spec fn listed_as(method: Seq<char>, has: spec_fn(&str) -> bool) -> bool {
    if method == "fp8"@ {
        has("weight_scale") || has("weight_scale_inv")
    } else if method == "mxfp4"@ {
        has("weight_packed") || has("blocks")
    } else if method == "nvfp4"@ {
        let packed = has("weight_packed") || has("blocks");
        let scale = has("weight_scale") || has("scales");
        let second = has("weight_scale_2") || has("weight_global_scale");
        let mlx = has("weight") && has("scales") && !packed && !second;
        (packed && scale) || (second && scale) || mlx
    } else if method == "gptq"@ || method == "awq"@ {
        has("qweight") || has("B")
    } else if method == "compressed-tensors"@ {
        has("weight_packed") && has("weight_scale")
    } else {
        true
    }
}

/// Whether the directory lists a weight in the form of a quantization method.
pub open spec fn weight_quantized(vb: &VarBuilderX, method: Seq<char>) -> bool {
    !vb.is_gguf && listed_as(method, |name: &str| vb.lists(name@))
}

/// Whether the directory lists a weight in 8 bit floats.
pub open spec fn weight_fp8(vb: &VarBuilderX) -> bool {
    !vb.is_gguf && (vb.lists("weight_scale"@) || vb.lists("weight_scale_inv"@))
}

/// Whether the directory lists a weight in the form of a quantization method.
pub fn is_weight_quantized(vb: &VarBuilderX, quant_method: &str) -> (r: bool)
    ensures
        r == weight_quantized(vb, quant_method@),
{
    if vb.is_qvar_builder() {
        return false;
    }
    if text::same_text(quant_method, "fp8") {
        vb.has_key("weight_scale") || vb.has_key("weight_scale_inv")
    } else if text::same_text(quant_method, "mxfp4") {
        vb.has_key("weight_packed") || vb.has_key("blocks")
    } else if text::same_text(quant_method, "nvfp4") {
        let has_packed: bool = vb.has_key("weight_packed") || vb.has_key("blocks");
        let has_scale: bool = vb.has_key("weight_scale") || vb.has_key("scales");
        let has_second: bool = vb.has_key("weight_scale_2") || vb.has_key("weight_global_scale");
        let is_mlx: bool = vb.has_key("weight") && vb.has_key("scales") && !has_packed
            && !has_second;
        (has_packed && has_scale) || (has_second && has_scale) || is_mlx
    } else if text::same_text(quant_method, "gptq") || text::same_text(quant_method, "awq") {
        vb.has_key("qweight") || vb.has_key("B")
    } else if text::same_text(quant_method, "compressed-tensors") {
        vb.has_key("weight_packed") && vb.has_key("weight_scale")
    } else {
        true
    }
}

/// Whether the directory lists a weight in 8 bit floats.
pub fn is_weight_fp8(vb: &VarBuilderX) -> (r: bool)
    ensures
        r == weight_fp8(vb),
{
    if vb.is_qvar_builder() {
        return false;
    }
    vb.has_key("weight_scale") || vb.has_key("weight_scale_inv")
}

/// How a single weight is stored, given the quantization method of the checkpoint.
pub fn resolve_quant_for_weight(vb: &VarBuilderX, quant_method: Option<&str>) -> (r: WeightQuant)
    ensures
        r == match quant_method {
            None => WeightQuant::Plain,
            Some(m) => if weight_quantized(vb, m@) {
                WeightQuant::AsConfigured
            } else if m@ == "nvfp4"@ && weight_fp8(vb) {
                WeightQuant::Fp8
            } else {
                WeightQuant::Plain
            },
        },
{
    if let Some(m) = quant_method {
        if is_weight_quantized(vb, m) {
            return WeightQuant::AsConfigured;
        }
        if text::same_text(m, "nvfp4") && is_weight_fp8(vb) {
            return WeightQuant::Fp8;
        }
    }
    WeightQuant::Plain
}

/// The names of the layer's parameters.
pub fn gdn_key_map(is_qvar_builder: bool) -> (r: KeyMap<'static>)
    ensures
        r.pairs@.len() == 7,
        forall|i: int|
            0 <= i < 7 ==> (#[trigger] r.pairs@[i]).0@ == gdn_names()[i].0@ && r.pairs@[i].1@ == (
            if is_qvar_builder {
                gdn_names()[i].1@
            } else {
                gdn_names()[i].0@
            }),
{
    let pairs: [(&'static str, &'static str); 7] = [
        ("A_log", "ssm_a"),
        ("dt_bias", "ssm_dt.bias"),
        ("conv1d.weight", "ssm_conv1d.weight"),
        ("conv1d.bias", "ssm_conv1d.bias"),
        ("out_proj", "ssm_out"),
        ("norm.weight", "ssm_norm.weight"),
        ("norm.bias", "ssm_norm.bias"),
    ];
    collect_key_map(is_qvar_builder, pairs)
}

/// The parameter names, and their names in a quantized single file.
pub open spec fn gdn_names() -> Seq<(&'static str, &'static str)> {
    seq![
        ("A_log", "ssm_a"),
        ("dt_bias", "ssm_dt.bias"),
        ("conv1d.weight", "ssm_conv1d.weight"),
        ("conv1d.bias", "ssm_conv1d.bias"),
        ("out_proj", "ssm_out"),
        ("norm.weight", "ssm_norm.weight"),
        ("norm.bias", "ssm_norm.bias"),
    ]
}

/// The names of the split projections.
pub fn projection_key_map(is_qvar_builder: bool) -> (r: KeyMap<'static>)
    ensures
        r.pairs@.len() == 4,
        forall|i: int|
            0 <= i < 4 ==> (#[trigger] r.pairs@[i]).0@ == projection_names()[i].0@
                && r.pairs@[i].1@ == (if is_qvar_builder {
                projection_names()[i].1@
            } else {
                projection_names()[i].0@
            }),
{
    let pairs: [(&'static str, &'static str); 4] = [
        ("in_proj_qkv", "attn_qkv"),
        ("in_proj_z", "attn_gate"),
        ("in_proj_b", "ssm_beta"),
        ("in_proj_a", "ssm_alpha"),
    ];
    collect_key_map(is_qvar_builder, pairs)
}

/// The names of the split projections, and those in a quantized single file.
pub open spec fn projection_names() -> Seq<(&'static str, &'static str)> {
    seq![
        ("in_proj_qkv", "attn_qkv"),
        ("in_proj_z", "attn_gate"),
        ("in_proj_b", "ssm_beta"),
        ("in_proj_a", "ssm_alpha"),
    ]
}

/// The output lengths of the projections, for all ranks together.
#[derive(Debug, Clone, Copy, PartialEq, Eq, Structural)]
pub struct ProjectionSizes {
    pub qkvz: usize,
    pub ba: usize,
    pub qkv: usize,
    pub z: usize,
    pub b: usize,
    pub a: usize,
}

impl GdnDims {
    /// The output lengths of the projections.
    pub fn projection_sizes(&self) -> (r: ProjectionSizes)
        requires
            self.wf(),
            2 * self.key_dim_global + 2 * self.value_dim_global <= usize::MAX,
            2 * self.num_v_heads_global <= usize::MAX,
        ensures
            r.qkvz == 2 * self.key_dim_global + 2 * self.value_dim_global,
            r.ba == 2 * self.num_v_heads_global,
            r.qkv == 2 * self.key_dim_global + self.value_dim_global,
            r.z == self.value_dim_global,
            r.b == self.num_v_heads_global,
            r.a == self.num_v_heads_global,
    {
        ProjectionSizes {
            qkvz: self.key_dim_global * 2 + self.value_dim_global * 2,
            ba: self.num_v_heads_global * 2,
            qkv: self.key_dim_global * 2 + self.value_dim_global,
            z: self.value_dim_global,
            b: self.num_v_heads_global,
            a: self.num_v_heads_global,
        }
    }
}

/// The projection that a checkpoint offers.
#[derive(Debug, Clone, Copy, PartialEq, Eq, Structural)]
pub enum ProjectionKind {
    /// `in_proj_qkvz` and `in_proj_ba`.
    FusedQkvzBa,
    /// `in_proj_qkv`, `in_proj_z`, `in_proj_b` and `in_proj_a`.
    SplitQkvZaLegacy,
    /// The same, with `in_proj_qkv` cut into its three parts for many ranks.
    SplitQkvZaMerged,
}

/// What to do next in loading the projection.
#[derive(Debug, Clone, Copy, PartialEq, Eq, Structural)]
pub enum ProjectionStep {
    /// Load `in_proj_qkvz` and `in_proj_ba`.
    LoadFused,
    /// Load the z, b and a projections.
    LoadSplit,
    /// Load `in_proj_qkv` in three parts.
    LoadMergedQkv,
    /// Load `in_proj_qkv` whole.
    LoadLegacyQkv,
    /// The projection is loaded.
    Done(ProjectionKind),
    /// A quantized `in_proj_qkv` cannot be cut for many ranks.
    FailMerged,
    /// No known projection is there; the recorded errors say why.
    Fail,
}

/// A failed load: which projection, and what the loader said.
pub struct LoadFailure {
    pub name: &'static str,
    pub reason: String,
}

/// Loading of the projection: tries the fused form, then the split form.
pub struct ProjectionLoader {
    pub world_size: usize,
    pub is_quantized: bool,
    pub is_qvar_builder: bool,
    pub step: ProjectionStep,
    pub failures: Vec<LoadFailure>,
}

/// The failures as text: name and reason of each.
pub open spec fn failure_texts(failures: Seq<LoadFailure>) -> Seq<(Seq<char>, Seq<char>)> {
    Seq::new(failures.len(), |i: int| (failures[i].name@, failures[i].reason@))
}

/// What a load adds to the failures.
pub open spec fn failure_of(name: &str, outcome: Result<(), String>) -> Seq<
    (Seq<char>, Seq<char>),
> {
    match outcome {
        Ok(_) => Seq::empty(),
        Err(reason) => seq![(name@, reason@)],
    }
}

fn record(failures: &mut Vec<LoadFailure>, name: &'static str, outcome: Result<(), String>)
    ensures
        failure_texts(final(failures)@) == failure_texts(old(failures)@) + failure_of(
            name,
            outcome,
        ),
{
    if let Err(reason) = outcome {
        failures.push(LoadFailure { name, reason });
        assert(failure_texts(failures@) =~= failure_texts(old(failures)@) + seq![
            (name@, reason@),
        ]);
    } else {
        assert(failure_texts(failures@) =~= failure_texts(old(failures)@) + Seq::empty());
    }
}

impl ProjectionLoader {
    /// Starts with the fused form.
    pub fn new(world_size: usize, is_quantized: bool, is_qvar_builder: bool) -> (r: Self)
        ensures
            r.world_size == world_size,
            r.is_quantized == is_quantized,
            r.is_qvar_builder == is_qvar_builder,
            r.step == ProjectionStep::LoadFused,
            r.failures@.len() == 0,
    {
        ProjectionLoader {
            world_size,
            is_quantized,
            is_qvar_builder,
            step: ProjectionStep::LoadFused,
            failures: Vec::new(),
        }
    }

    /// The settings that no step changes.
    pub open spec fn same_settings(&self, other: &ProjectionLoader) -> bool {
        &&& self.world_size == other.world_size
        &&& self.is_quantized == other.is_quantized
        &&& self.is_qvar_builder == other.is_qvar_builder
    }

    /// The fused form was tried: both parts are needed.
    pub fn fused_loaded(&mut self, qkvz: Result<(), String>, ba: Result<(), String>)
        requires
            old(self).step == ProjectionStep::LoadFused,
        ensures
            final(self).same_settings(old(self)),
            final(self).step == if qkvz is Ok && ba is Ok {
                ProjectionStep::Done(ProjectionKind::FusedQkvzBa)
            } else {
                ProjectionStep::LoadSplit
            },
            failure_texts(final(self).failures@) == failure_texts(old(self).failures@)
                + failure_of("in_proj_qkvz", qkvz) + failure_of("in_proj_ba", ba),
    {
        if qkvz.is_ok() && ba.is_ok() {
            self.step = ProjectionStep::Done(ProjectionKind::FusedQkvzBa);
        } else {
            self.step = ProjectionStep::LoadSplit;
        }
        record(&mut self.failures, "in_proj_qkvz", qkvz);
        record(&mut self.failures, "in_proj_ba", ba);
    }

    /// The z, b and a projections were tried: all three are needed.
    pub fn split_loaded(
        &mut self,
        z: Result<(), String>,
        b: Result<(), String>,
        a: Result<(), String>,
    )
        requires
            old(self).step == ProjectionStep::LoadSplit,
        ensures
            final(self).same_settings(old(self)),
            final(self).step == if z is Ok && b is Ok && a is Ok {
                if old(self).world_size > 1 {
                    ProjectionStep::LoadMergedQkv
                } else {
                    ProjectionStep::LoadLegacyQkv
                }
            } else {
                ProjectionStep::Fail
            },
            failure_texts(final(self).failures@) == failure_texts(old(self).failures@)
                + failure_of("in_proj_z", z) + failure_of("in_proj_b", b) + failure_of(
                "in_proj_a",
                a,
            ),
    {
        if z.is_ok() && b.is_ok() && a.is_ok() {
            if self.world_size > 1 {
                self.step = ProjectionStep::LoadMergedQkv;
            } else {
                self.step = ProjectionStep::LoadLegacyQkv;
            }
        } else {
            self.step = ProjectionStep::Fail;
        }
        record(&mut self.failures, "in_proj_z", z);
        record(&mut self.failures, "in_proj_b", b);
        record(&mut self.failures, "in_proj_a", a);
    }

    /// The cut `in_proj_qkv` was tried. Without it a quantized checkpoint cannot
    /// run on many ranks; another one falls back to the whole projection.
    pub fn merged_loaded(&mut self, ok: bool)
        requires
            old(self).step == ProjectionStep::LoadMergedQkv,
        ensures
            final(self).same_settings(old(self)),
            final(self).failures == old(self).failures,
            final(self).step == if ok {
                ProjectionStep::Done(ProjectionKind::SplitQkvZaMerged)
            } else if old(self).is_quantized && !old(self).is_qvar_builder {
                ProjectionStep::FailMerged
            } else {
                ProjectionStep::LoadLegacyQkv
            },
    {
        if ok {
            self.step = ProjectionStep::Done(ProjectionKind::SplitQkvZaMerged);
        } else if self.is_quantized && !self.is_qvar_builder {
            self.step = ProjectionStep::FailMerged;
        } else {
            self.step = ProjectionStep::LoadLegacyQkv;
        }
    }

    /// The whole `in_proj_qkv` was tried.
    pub fn legacy_loaded(&mut self, qkv: Result<(), String>)
        requires
            old(self).step == ProjectionStep::LoadLegacyQkv,
        ensures
            final(self).same_settings(old(self)),
            final(self).step == if qkv is Ok {
                ProjectionStep::Done(ProjectionKind::SplitQkvZaLegacy)
            } else {
                ProjectionStep::Fail
            },
            failure_texts(final(self).failures@) == failure_texts(old(self).failures@)
                + failure_of("in_proj_qkv", qkv),
    {
        if qkv.is_ok() {
            self.step = ProjectionStep::Done(ProjectionKind::SplitQkvZaLegacy);
        } else {
            self.step = ProjectionStep::Fail;
        }
        record(&mut self.failures, "in_proj_qkv", qkv);
    }

    /// The failures in one text, `name: reason` each, separated by `; `.
    pub fn failure_text(&self) -> (r: String)
        ensures
            r@ == joined_failures(failure_texts(self.failures@)),
    {
        let n: usize = self.failures.len();
        let mut s: String = String::new();
        let mut i: usize = 0;
        let ghost texts = failure_texts(self.failures@);
        assert(texts.take(0) =~= Seq::empty());
        while i < n
            invariant
                i <= n,
                n == self.failures@.len(),
                texts == failure_texts(self.failures@),
                s@ == joined_failures(texts.take(i as int)),
            decreases n - i,
        {
            assert(texts.take(i as int + 1).drop_last() =~= texts.take(i as int));
            if i > 0 {
                s.append("; ");
            }
            s.append(self.failures[i].name);
            s.append(": ");
            s.append(self.failures[i].reason.as_str());
            assert(s@ =~= joined_failures(texts.take(i as int + 1)));
            i += 1;
        }
        assert(texts.take(n as int) =~= texts);
        s
    }
}

/// Name and reason of each failure, separated by `; `.
pub open spec fn joined_failures(texts: Seq<(Seq<char>, Seq<char>)>) -> Seq<char>
    decreases texts.len(),
{
    if texts.len() == 0 {
        Seq::empty()
    } else {
        let one = texts.last().0 + ": "@ + texts.last().1;
        if texts.len() == 1 {
            one
        } else {
            joined_failures(texts.drop_last()) + "; "@ + one
        }
    }
}

/// Whether cutting `in_proj_qkv` is closed: asymmetric compressed tensors.
pub fn merged_qkv_is_closed(quant_method: Option<&str>, sym: Option<bool>) -> (r: bool)
    ensures
        r == (quant_method matches Some(m) && m@ == "compressed-tensors"@ && sym == Some(false)),
{
    match quant_method {
        Some(m) => text::same_text(m, "compressed-tensors") && match sym {
            Some(s) => !s,
            None => false,
        },
        None => false,
    }
}

/// The parts of a fused projection, within the group of one key head.
#[derive(Debug, Clone, Copy, PartialEq, Eq, Structural)]
pub struct FusedSplit {
    pub qkvz_group_dim: usize,
    pub ba_group_dim: usize,
    pub query: Slice,
    pub key: Slice,
    pub value: Slice,
    pub z: Slice,
    pub b: Slice,
    pub a: Slice,
}

impl GdnDims {
    /// What machine limits ask of a fused projection.
    pub open spec fn fits_fused(&self) -> bool {
        &&& 2 * self.head_k_dim + 2 * (self.kv_group_size * self.head_v_dim) <= usize::MAX
        &&& 2 * self.kv_group_size <= usize::MAX
    }

    /// The parts of a fused projection: each one stands behind the one before.
    pub open spec fn fused_split_of(&self) -> FusedSplit {
        let (hk, gv) = (self.head_k_dim, (self.kv_group_size * self.head_v_dim) as usize);
        FusedSplit {
            qkvz_group_dim: (2 * hk + 2 * gv) as usize,
            ba_group_dim: (2 * self.kv_group_size) as usize,
            query: Slice { start: 0, len: hk },
            key: Slice { start: hk, len: hk },
            value: Slice { start: (2 * hk) as usize, len: gv },
            z: Slice { start: (2 * hk + gv) as usize, len: gv },
            b: Slice { start: 0, len: self.kv_group_size },
            a: Slice { start: self.kv_group_size, len: self.kv_group_size },
        }
    }

    /// How the fused projections are cut: per key head the query, the key, the
    /// values and the gates of its group, and the b and a of its group.
    pub fn fused_split(&self) -> (r: FusedSplit)
        requires
            self.fits_fused(),
        ensures
            r == self.fused_split_of(),
    {
        proof {
            assert(self.kv_group_size * self.head_v_dim >= 0) by (nonlinear_arith);
        }
        let hk: usize = self.head_k_dim;
        let gv: usize = self.kv_group_size * self.head_v_dim;
        FusedSplit {
            qkvz_group_dim: hk + hk + gv * 2,
            ba_group_dim: 2 * self.kv_group_size,
            query: Slice { start: 0, len: hk },
            key: Slice { start: hk, len: hk },
            value: Slice { start: hk + hk, len: gv },
            z: Slice { start: hk + hk + gv, len: gv },
            b: Slice { start: 0, len: self.kv_group_size },
            a: Slice { start: self.kv_group_size, len: self.kv_group_size },
        }
    }
}

/// The cut parts of all key heads make up the whole rows: queries and keys of
/// `key_dim`, values and gates of `value_dim`, b and a of one per value head. Within a
/// group each part starts where the one before ends, and the last one ends with it.
pub proof fn law_fused_parts_make_up_rows(d: GdnDims)
    requires
        d.wf(),
        d.fits_fused(),
    ensures
        ({
            let f = d.fused_split_of();
            &&& f.query.start == 0
            &&& f.key.start == f.query.start + f.query.len
            &&& f.value.start == f.key.start + f.key.len
            &&& f.z.start == f.value.start + f.value.len
            &&& f.qkvz_group_dim == f.z.start + f.z.len
            &&& f.b.start == 0
            &&& f.a.start == f.b.start + f.b.len
            &&& f.ba_group_dim == f.a.start + f.a.len
        }),
        d.num_k_heads * d.head_k_dim == d.key_dim,
        d.num_k_heads * (d.kv_group_size * d.head_v_dim) == d.value_dim,
        d.num_k_heads * d.kv_group_size == d.num_v_heads,
{
    assert(d.num_k_heads * (d.kv_group_size * d.head_v_dim) == (d.num_k_heads * d.kv_group_size)
        * d.head_v_dim) by (nonlinear_arith);
    assert(d.kv_group_size * d.head_v_dim >= 0) by (nonlinear_arith);
}

/// A merged projection gives queries, keys and values.
pub fn check_merged_chunks(got: usize) -> (r: Result<(), GdnError>)
    ensures
        r == if got == 3 {
            Ok::<(), GdnError>(())
        } else {
            Err::<(), GdnError>(GdnError::MergedChunks { got })
        },
{
    if got != 3 {
        Err(GdnError::MergedChunks { got })
    } else {
        Ok(())
    }
}

/// The element types of the layer: of its kernels, and of the projections.
#[derive(Debug, Clone, Copy, PartialEq, Eq, Structural)]
pub struct GdnTypes {
    pub gdn_dtype: Dtype,
    pub model_dtype: Dtype,
}

/// The element types of the layer. A quantized single file computes in singles;
/// half precision models keep the kernels in singles.
pub fn gdn_types(is_qvar_builder: bool, is_f16_mode: bool, dtype: Dtype) -> (r: GdnTypes)
    ensures
        r.gdn_dtype == if is_qvar_builder || is_f16_mode {
            Dtype::F32
        } else {
            dtype
        },
        r.model_dtype == if is_qvar_builder {
            Dtype::F32
        } else {
            dtype
        },
{
    GdnTypes {
        gdn_dtype: if is_qvar_builder || is_f16_mode {
            Dtype::F32
        } else {
            dtype
        },
        model_dtype: if is_qvar_builder {
            Dtype::F32
        } else {
            dtype
        },
    }
}

/// How the convolution weight is requested, and what brings it to
/// `(channels, 1, kernel)`.
#[derive(Debug, Clone, Copy, PartialEq, Eq, Structural)]
pub enum ConvWeight {
    /// `(channels, kernel)`, with a dimension put in.
    Unsqueezed { channels: usize, kernel: usize },
    /// `(channels, 1, kernel)` as it is.
    Direct { channels: usize, kernel: usize },
    /// `(channels, kernel, 1)`, with the last two dimensions swapped.
    Permuted { channels: usize, kernel: usize },
}

impl GdnDims {
    /// The first request for the convolution weight.
    pub fn conv_weight(&self, is_qvar_builder: bool) -> (r: ConvWeight)
        ensures
            r == if is_qvar_builder {
                ConvWeight::Unsqueezed {
                    channels: self.conv_dim_global,
                    kernel: self.conv_kernel_size,
                }
            } else {
                ConvWeight::Direct { channels: self.conv_dim_global, kernel: self.conv_kernel_size }
            },
    {
        let channels: usize = self.conv_dim_global;
        let kernel: usize = self.conv_kernel_size;
        if is_qvar_builder {
            ConvWeight::Unsqueezed { channels, kernel }
        } else {
            ConvWeight::Direct { channels, kernel }
        }
    }

    /// The request after a refused one: only the direct form has another.
    pub fn conv_weight_retry(&self, refused: ConvWeight) -> (r: Option<ConvWeight>)
        ensures
            r == match refused {
                ConvWeight::Direct { channels, kernel } => Some(
                    ConvWeight::Permuted { channels, kernel },
                ),
                _ => None,
            },
    {
        match refused {
            ConvWeight::Direct { channels, kernel } => Some(
                ConvWeight::Permuted { channels, kernel },
            ),
            _ => None,
        }
    }

    /// The shapes of the snapshot buffers for speculative verification: at least
    /// 16 tokens.
    pub fn snapshot_shapes(&self, max_verify_tokens: usize) -> (r: (Vec<usize>, Vec<usize>))
        requires
            self.conv_kernel_size > 0,
        ensures
            ({
                let t: usize = if max_verify_tokens < 16 {
                    16
                } else {
                    max_verify_tokens
                };
                &&& r.0@ == seq![t, self.d_conv, (self.conv_kernel_size - 1) as usize]
                &&& r.1@ == seq![t, self.num_v_heads, self.head_k_dim, self.head_v_dim]
            }),
    {
        let t: usize = if max_verify_tokens < 16 {
            16
        } else {
            max_verify_tokens
        };
        let mut conv: Vec<usize> = Vec::new();
        conv.push(t);
        conv.push(self.d_conv);
        conv.push(self.conv_kernel_size - 1);
        let mut rec: Vec<usize> = Vec::new();
        rec.push(t);
        rec.push(self.num_v_heads);
        rec.push(self.head_k_dim);
        rec.push(self.head_v_dim);
        (conv, rec)
    }
}

/// Whether the output gate is a sigmoid; otherwise it is a silu.
pub fn gate_is_sigmoid(output_gate_type: Option<&str>) -> (r: bool)
    ensures
        r == (output_gate_type matches Some(a) && text::same_ignoring_case(a@, "sigmoid"@)),
{
    match output_gate_type {
        Some(a) => text::eq_ignore_ascii_case(a, "sigmoid"),
        None => false,
    }
}

/// The launch of the convolution: sequences and channels.
#[derive(Debug, Clone, Copy, PartialEq, Eq, Structural)]
pub struct ConvLaunch {
    pub batch: i32,
    pub channels: i32,
}

/// Checks the convolution of a prefill. `bounds` are the sequence bounds, one more
/// than sequences; `state_rows` is the number of gathered state rows.
pub fn check_conv1d_fwd(
    snapshots: bool,
    dtype: Dtype,
    shape: &[usize],
    bounds: &[u32],
    state_rows: usize,
) -> (r: Result<ConvLaunch, GdnError>)
    ensures
        r == conv_fwd_answer(snapshots, dtype, shape@, bounds@, state_rows),
{
    if snapshots {
        return Err(GdnError::ConvSnapshotsClosed);
    }
    if dtype != Dtype::F32 {
        return Err(GdnError::NotF32 { dtype });
    }
    if shape.len() != 2 {
        return Err(GdnError::ConvRank { rank: shape.len() });
    }
    let total: usize = shape[0];
    let n: usize = bounds.len();
    if n < 2 || n - 1 != state_rows {
        return Err(GdnError::BoundsMismatch { bounds: n, rows: state_rows });
    }
    let last: u32 = bounds[n - 1];
    if last as usize != total {
        return Err(GdnError::BoundsTotal { last, total });
    }
    Ok(ConvLaunch { batch: (n - 1) as i32, channels: shape[1] as i32 })
}

/// The answer of [`check_conv1d_fwd`].
pub open spec fn conv_fwd_answer(
    snapshots: bool,
    dtype: Dtype,
    shape: Seq<usize>,
    bounds: Seq<u32>,
    state_rows: usize,
) -> Result<ConvLaunch, GdnError> {
    if snapshots {
        Err(GdnError::ConvSnapshotsClosed)
    } else if dtype != Dtype::F32 {
        Err(GdnError::NotF32 { dtype })
    } else if shape.len() != 2 {
        Err(GdnError::ConvRank { rank: shape.len() as usize })
    } else if bounds.len() < 2 || bounds.len() - 1 != state_rows {
        Err(GdnError::BoundsMismatch { bounds: bounds.len() as usize, rows: state_rows })
    } else if bounds.last() != shape[0] {
        Err(GdnError::BoundsTotal { last: bounds.last(), total: shape[0] })
    } else {
        Ok(ConvLaunch { batch: (bounds.len() - 1) as i32, channels: shape[1] as i32 })
    }
}

/// Checks the convolution of a decode step.
pub fn check_conv1d_update(dtype: Dtype, shape: &[usize]) -> (r: Result<ConvLaunch, GdnError>)
    requires
        shape@.len() >= 2,
    ensures
        r == if dtype != Dtype::F32 {
            Err::<ConvLaunch, GdnError>(GdnError::NotF32 { dtype })
        } else {
            Ok::<ConvLaunch, GdnError>(
                ConvLaunch { batch: shape@[0] as i32, channels: shape@[1] as i32 },
            )
        },
{
    if dtype != Dtype::F32 {
        return Err(GdnError::NotF32 { dtype });
    }
    Ok(ConvLaunch { batch: shape[0] as i32, channels: shape[1] as i32 })
}

/// Rows and length of a normalization over the last dimension.
pub fn last_dim_rows(shape: &[usize]) -> (r: (usize, usize))
    requires
        shape@.len() > 0,
        shape@.last() > 0,
        forall|i: int|
            0 <= i <= shape@.len() ==> super::shape::elem_count(#[trigger] shape@.take(i))
                <= usize::MAX,
    ensures
        r.1 == shape@.last(),
        r.0 == super::shape::elem_count(shape@.drop_last()),
        r.0 * r.1 == super::shape::elem_count(shape@),
{
    let last: usize = shape[shape.len() - 1];
    let all: usize = super::shape::product(shape);
    let ghost rows = super::shape::elem_count(shape@.drop_last());
    proof {
        assert(all == rows * last);
        vstd::arithmetic::div_mod::lemma_fundamental_div_mod_converse(
            all as int,
            last as int,
            rows,
            0,
        );
    }
    (all / last, last)
}

/// The launch of the gated normalization.
#[derive(Debug, Clone, Copy, PartialEq, Eq, Structural)]
pub struct GatedNormLaunch {
    pub rows: i32,
    pub value_dim: i32,
    pub head_v_dim: i32,
    /// One weight per head, or one per channel.
    pub per_group: bool,
    pub has_bias: bool,
    /// 0 for silu, 1 for sigmoid.
    pub act: i32,
}

/// The launch of the gated normalization of `(rows, value_dim)`.
pub fn gated_norm_launch(
    shape: &[usize],
    weight_len: usize,
    head_v_dim: usize,
    has_bias: bool,
    sigmoid: bool,
) -> (r: GatedNormLaunch)
    requires
        shape@.len() >= 2,
    ensures
        r == (GatedNormLaunch {
            rows: shape@[0] as i32,
            value_dim: shape@[1] as i32,
            head_v_dim: head_v_dim as i32,
            per_group: weight_len == head_v_dim,
            has_bias,
            act: if sigmoid {
                1
            } else {
                0
            },
        }),
{
    GatedNormLaunch {
        rows: shape[0] as i32,
        value_dim: shape[1] as i32,
        head_v_dim: head_v_dim as i32,
        per_group: weight_len == head_v_dim,
        has_bias,
        act: if sigmoid {
            1
        } else {
            0
        },
    }
}

/// The launch of a decode step of the recurrence.
#[derive(Debug, Clone, Copy, PartialEq, Eq, Structural)]
pub struct DecodeLaunch {
    pub batch: i32,
    pub nv: i32,
    pub nk: i32,
    pub kd: i32,
    pub vd: i32,
}

/// The launch for queries `(sequences, key heads, key dim)` and values
/// `(sequences, value heads, value dim)`.
pub fn decode_launch(q_shape: &[usize], v_shape: &[usize]) -> (r: DecodeLaunch)
    requires
        q_shape@.len() >= 3,
        v_shape@.len() >= 3,
    ensures
        r == (DecodeLaunch {
            batch: q_shape@[0] as i32,
            nv: v_shape@[1] as i32,
            nk: q_shape@[1] as i32,
            kd: q_shape@[2] as i32,
            vd: v_shape@[2] as i32,
        }),
{
    DecodeLaunch {
        batch: q_shape[0] as i32,
        nv: v_shape[1] as i32,
        nk: q_shape[1] as i32,
        kd: q_shape[2] as i32,
        vd: v_shape[2] as i32,
    }
}

/// The launch of decays and strengths: all elements, and heads.
pub fn gating_launch(shape: &[usize], heads: usize) -> (r: (i32, i32))
    requires
        forall|i: int|
            0 <= i <= shape@.len() ==> super::shape::elem_count(#[trigger] shape@.take(i))
                <= usize::MAX,
    ensures
        r.0 == (super::shape::elem_count(shape@) as usize) as i32,
        r.1 == heads as i32,
{
    (super::shape::product(shape) as i32, heads as i32)
}

/// The slot of a sequence that has none.
pub const NO_SLOT: u32 = 0xffff_ffff;

/// The inputs of a recurrence over sequences of different lengths.
pub struct RecurrenceInput {
    pub snapshots: bool,
    pub dtype: Dtype,
    /// `(tokens, key heads, key dim)`.
    pub q_shape: Vec<usize>,
    /// `(tokens, value heads, value dim)`.
    pub v_shape: Vec<usize>,
    /// Sequence bounds, one more than sequences.
    pub bounds: Vec<u32>,
    /// The state row of each sequence.
    pub slots: Vec<u32>,
    pub state_rows: usize,
}

/// One step of the recurrence: token `token` of sequence `seq`, whose output goes
/// to element `dst` of the output.
#[derive(Debug, Clone, Copy, PartialEq, Eq, Structural)]
pub struct RecurrenceStep {
    pub seq: usize,
    pub token: usize,
    pub dst: usize,
}

/// The steps of a recurrence, in order, and the output shape. After the steps the
/// recurrence may have to stop with an error: the states of the sequences before it
/// are advanced by then.
pub struct RecurrencePlan {
    pub total: usize,
    pub nk: usize,
    pub kd: usize,
    pub nv: usize,
    pub vd: usize,
    pub steps: Vec<RecurrenceStep>,
    pub stop: Option<GdnError>,
}

/// The largest slot; 0 where there is none.
pub open spec fn max_slot(slots: Seq<u32>) -> u32
    decreases slots.len(),
{
    if slots.len() == 0 {
        0
    } else {
        let m = max_slot(slots.drop_last());
        if slots.last() > m {
            slots.last()
        } else {
            m
        }
    }
}

/// The first check that a recurrence fails, before its steps are made.
pub open spec fn recurrence_refusal(i: RecurrenceInput) -> Option<GdnError> {
    if i.snapshots {
        Some(GdnError::RecurrentSnapshotsClosed)
    } else if i.dtype != Dtype::F32 {
        Some(GdnError::NotF32 { dtype: i.dtype })
    } else if i.q_shape@.len() != 3 {
        Some(GdnError::QueryRank { rank: i.q_shape@.len() as usize })
    } else if i.v_shape@.len() != 3 || i.v_shape@[0] != i.q_shape@[0] {
        Some(GdnError::ValueTokens)
    } else if i.v_shape@[1] as int % i.q_shape@[1] as int != 0 {
        Some(GdnError::GroupMapping { nv: i.v_shape@[1], nk: i.q_shape@[1] })
    } else if i.bounds@.len() < 2 || i.bounds@.len() - 1 != i.slots@.len() {
        Some(
            GdnError::BoundsMismatch {
                bounds: i.bounds@.len() as usize,
                rows: i.slots@.len() as usize,
            },
        )
    } else if i.bounds@.last() != i.q_shape@[0] {
        Some(GdnError::BoundsTotal { last: i.bounds@.last(), total: i.q_shape@[0] })
    } else if i.state_rows <= max_slot(i.slots@) {
        Some(GdnError::SlotOutOfRange { max: max_slot(i.slots@), rows: i.state_rows })
    } else {
        None
    }
}

/// The steps of the tokens from `from` up to `to`, none where there are none.
pub open spec fn token_steps(s: int, from: int, to: int, row: int) -> Seq<RecurrenceStep> {
    let n = if to > from {
        to - from
    } else {
        0
    };
    Seq::new(
        n as nat,
        |j: int|
            RecurrenceStep {
                seq: s as usize,
                token: (from + j) as usize,
                dst: ((from + j) * row) as usize,
            },
    )
}

/// Whether sequence `s` stops the recurrence: not empty, and without a slot or
/// with tokens that are not there.
pub open spec fn sequence_refusal(i: RecurrenceInput, s: int) -> Option<GdnError> {
    if i.bounds@[s + 1] <= i.bounds@[s] {
        None
    } else if i.slots@[s] == NO_SLOT {
        Some(GdnError::SlotSentinel { seq: s as usize })
    } else if i.bounds@[s + 1] > i.q_shape@[0] {
        Some(GdnError::TokenOutOfRange { seq: s as usize })
    } else {
        None
    }
}

/// The steps of sequence `s`: its tokens in order. Without a slot there are none,
/// and none beyond the last token.
pub open spec fn sequence_steps(i: RecurrenceInput, row: int, s: int) -> Seq<RecurrenceStep> {
    let from = i.bounds@[s] as int;
    let to = i.bounds@[s + 1] as int;
    let total = i.q_shape@[0] as int;
    if to > from && i.slots@[s] == NO_SLOT {
        Seq::empty()
    } else {
        token_steps(
            s,
            from,
            if to > total {
                total
            } else {
                to
            },
            row,
        )
    }
}

/// The steps of the first `n` sequences, up to the first one that stops the
/// recurrence, and why it stops. `row` is the length of a token's output.
pub open spec fn run_of(i: RecurrenceInput, row: int, n: int) -> (
    Seq<RecurrenceStep>,
    Option<GdnError>,
)
    decreases n,
{
    if n <= 0 {
        (Seq::empty(), None)
    } else {
        let before = run_of(i, row, n - 1);
        if before.1 is Some {
            before
        } else {
            (before.0 + sequence_steps(i, row, n - 1), sequence_refusal(i, n - 1))
        }
    }
}

/// `r` is what [`plan_recurrence`] answers.
pub open spec fn recurrence_answer(
    i: RecurrenceInput,
    r: Result<RecurrencePlan, GdnError>,
) -> bool {
    match recurrence_refusal(i) {
        Some(e) => r matches Err(f) && f == e,
        None => r matches Ok(p) && p.total == i.q_shape@[0] && p.nk == i.q_shape@[1] && p.kd
            == i.q_shape@[2] && p.nv == i.v_shape@[1] && p.vd == i.v_shape@[2] && (p.steps@, p.stop)
            == run_of(i, p.nv * p.vd, i.slots@.len() as int),
    }
}

fn largest_slot(slots: &Vec<u32>) -> (m: u32)
    ensures
        m == max_slot(slots@),
{
    let n: usize = slots.len();
    let mut m: u32 = 0;
    let mut i: usize = 0;
    assert(slots@.take(0) =~= Seq::empty());
    while i < n
        invariant
            i <= n,
            n == slots@.len(),
            m == max_slot(slots@.take(i as int)),
        decreases n - i,
    {
        assert(slots@.take(i as int + 1).drop_last() =~= slots@.take(i as int));
        if slots[i] > m {
            m = slots[i];
        }
        i += 1;
    }
    assert(slots@.take(n as int) =~= slots@);
    m
}

/// Checks a recurrence and orders its steps: sequence by sequence, token by token.
pub fn plan_recurrence(i: &RecurrenceInput) -> (r: Result<RecurrencePlan, GdnError>)
    requires
        !i.snapshots && i.dtype == Dtype::F32 && i.q_shape@.len() == 3 && i.v_shape@.len() == 3
            && i.v_shape@[0] == i.q_shape@[0] ==> i.q_shape@[1] > 0,
        recurrence_refusal(*i) is None ==> i.v_shape@[1] * i.v_shape@[2] <= usize::MAX
            && i.q_shape@[0] * (i.v_shape@[1] * i.v_shape@[2]) <= usize::MAX,
    ensures
        recurrence_answer(*i, r),
{
    if i.snapshots {
        return Err(GdnError::RecurrentSnapshotsClosed);
    }
    if i.dtype != Dtype::F32 {
        return Err(GdnError::NotF32 { dtype: i.dtype });
    }
    if i.q_shape.len() != 3 {
        return Err(GdnError::QueryRank { rank: i.q_shape.len() });
    }
    if i.v_shape.len() != 3 || i.v_shape[0] != i.q_shape[0] {
        return Err(GdnError::ValueTokens);
    }
    let total: usize = i.q_shape[0];
    let nk: usize = i.q_shape[1];
    let kd: usize = i.q_shape[2];
    let nv: usize = i.v_shape[1];
    let vd: usize = i.v_shape[2];
    if nv % nk != 0 {
        return Err(GdnError::GroupMapping { nv, nk });
    }
    let n: usize = i.slots.len();
    if i.bounds.len() < 2 || i.bounds.len() - 1 != n {
        return Err(GdnError::BoundsMismatch { bounds: i.bounds.len(), rows: n });
    }
    let last: u32 = i.bounds[n];
    if last as usize != total {
        return Err(GdnError::BoundsTotal { last, total });
    }
    let max: u32 = largest_slot(&i.slots);
    if i.state_rows as u64 <= max as u64 {
        return Err(GdnError::SlotOutOfRange { max, rows: i.state_rows });
    }
    let row: usize = nv * vd;
    let mut steps: Vec<RecurrenceStep> = Vec::new();
    let mut stop: Option<GdnError> = None;
    let mut s: usize = 0;
    while s < n && stop.is_none()
        invariant
            s <= n,
            n == i.slots@.len(),
            i.bounds@.len() == n + 1,
            i.q_shape@.len() == 3,
            total == i.q_shape@[0],
            row == nv * vd,
            total * row <= usize::MAX,
            (steps@, stop) == run_of(*i, row as int, s as int),
        decreases n - s,
    {
        let from: usize = i.bounds[s] as usize;
        let to: usize = i.bounds[s + 1] as usize;
        let no_slot: bool = to > from && i.slots[s] == NO_SLOT;
        let end: usize = if no_slot {
            from
        } else if to > total {
            total
        } else {
            to
        };
        if no_slot {
            stop = Some(GdnError::SlotSentinel { seq: s });
        } else if to > from && to > total {
            stop = Some(GdnError::TokenOutOfRange { seq: s });
        }
        let ghost own = sequence_steps(*i, row as int, s as int);
        let ghost done = run_of(*i, row as int, s as int).0;
        let mut t: usize = from;
        assert(steps@ =~= done + own.take(0));
        while t < end
            invariant
                from <= t,
                end > from ==> t <= end,
                end <= from ==> t == from,
                end > from ==> end <= total,
                row == nv * vd,
                total * row <= usize::MAX,
                end > from ==> own == token_steps(s as int, from as int, end as int, row as int),
                end <= from ==> own.len() == 0,
                steps@ == done + own.take(t - from),
            decreases end - t,
        {
            proof {
                assert(t * row <= total * row) by (nonlinear_arith)
                    requires
                        t <= total,
                        row >= 0,
                ;
                assert(t * row >= 0) by (nonlinear_arith);
                assert(own.take(t - from + 1) =~= own.take(t - from).push(own[t - from]));
            }
            steps.push(RecurrenceStep { seq: s, token: t, dst: t * row });
            t += 1;
            proof {
                assert(steps@ =~= done + own.take(t - from));
            }
        }
        proof {
            assert(own.take(t - from) =~= own);
            assert(steps@ == done + own);
        }
        s += 1;
    }
    proof {
        if stop is Some {
            lemma_run_stops(*i, row as int, s as int, n as int);
        }
    }
    Ok(RecurrencePlan { total, nk, kd, nv, vd, steps, stop })
}

proof fn lemma_run_stops(i: RecurrenceInput, row: int, m: int, n: int)
    requires
        0 <= m <= n,
        run_of(i, row, m).1 is Some,
    ensures
        run_of(i, row, n) == run_of(i, row, m),
    decreases n,
{
    if m < n {
        lemma_run_stops(i, row, m, n - 1);
    }
}

/// Sequence bounds that start at zero and never fall.
pub open spec fn bounds_ascend(bounds: Seq<u32>) -> bool {
    &&& bounds.len() > 0
    &&& bounds[0] == 0
    &&& forall|x: int, y: int| 0 <= x <= y < bounds.len() ==> bounds[x] <= bounds[y]
}

/// With ascending bounds up to the number of tokens, and a slot for every sequence,
/// nothing stops the recurrence, and the steps of the first `n` sequences run
/// through the tokens up to bound `n`, each once and in order: step `t` is token `t`
/// and belongs to the sequence whose bounds hold `t`. So the output rows are filled
/// without a gap.
pub proof fn law_recurrence_covers_tokens(i: RecurrenceInput, row: int, n: int)
    requires
        bounds_ascend(i.bounds@),
        i.bounds@.last() == i.q_shape@[0],
        forall|s: int| 0 <= s < i.slots@.len() ==> #[trigger] i.slots@[s] != NO_SLOT,
        i.bounds@.len() == i.slots@.len() + 1,
        0 <= n <= i.slots@.len(),
        row >= 0,
    ensures
        run_of(i, row, n).1 is None,
        run_of(i, row, n).0.len() == i.bounds@[n],
        forall|t: int|
            0 <= t < i.bounds@[n] ==> ({
                let step = #[trigger] run_of(i, row, n).0[t];
                &&& step.token == t
                &&& step.dst == (t * row) as usize
                &&& step.seq < n
                &&& i.bounds@[step.seq as int] <= t < i.bounds@[step.seq + 1]
            }),
    decreases n,
{
    if n > 0 {
        law_recurrence_covers_tokens(i, row, n - 1);
        let bounds = i.bounds@;
        assert(bounds[n - 1] <= bounds[n] <= bounds.last());
        assert(i.slots@[n - 1] != NO_SLOT);
        assert(n <= i.slots.len());
        let done = run_of(i, row, n - 1).0;
        let own = sequence_steps(i, row, n - 1);
        assert(own.len() == bounds[n] - bounds[n - 1]);
        assert forall|t: int| 0 <= t < bounds[n] implies ({
            let step = #[trigger] run_of(i, row, n).0[t];
            &&& step.token == t
            &&& step.dst == (t * row) as usize
            &&& step.seq < n
            &&& bounds[step.seq as int] <= t < bounds[step.seq + 1]
        }) by {
            if t < bounds[n - 1] {
                assert(run_of(i, row, n).0[t] == done[t]);
            } else {
                assert(run_of(i, row, n).0[t] == own[t - bounds[n - 1]]);
            }
        }
    }
}

/// Where the convolution of a forward pass reads and writes its state.
#[derive(Debug, Clone, Copy, PartialEq, Eq, Structural)]
pub enum ConvPath {
    /// Gathered state rows, written back afterwards; with snapshots of the given
    /// stretch.
    Prefill { snapshots: Option<Slice> },
    /// State rows in place.
    Decode,
}

/// What is known of a forward pass before any kernel runs.
#[derive(Debug, Clone, Copy, PartialEq, Eq, Structural)]
pub struct GdnCall {
    pub slot_count: usize,
    pub token_count: usize,
    pub is_prefill: bool,
    pub is_mtp_verify: bool,
    /// The bounds of the packed sequences are given.
    pub has_bounds: bool,
}

/// The conversion that brings `from` to `to`, where they differ.
pub open spec fn conversion(from: Dtype, to: Dtype) -> Option<Dtype> {
    if from != to {
        Some(to)
    } else {
        None
    }
}

/// The conversion that brings `from` to `to`, where they differ.
pub fn convert_to(from: Dtype, to: Dtype) -> (r: Option<Dtype>)
    ensures
        r == conversion(from, to),
{
    if from != to {
        Some(to)
    } else {
        None
    }
}

/// The convolution of a forward pass: of a prefill, over the gathered states; of a
/// decode step, in place. A verification needs a snapshot of the layer for each token;
/// `snapshots` is how many there are.
pub fn plan_conv(call: &GdnCall, layer: usize, snapshots: Option<usize>) -> (r: Result<
    ConvPath,
    GdnError,
>)
    requires
        call.slot_count > 0 && call.is_prefill ==> call.has_bounds,
    ensures
        r == conv_answer(*call, layer, snapshots),
{
    if call.slot_count == 0 {
        return Err(GdnError::NoSlots);
    }
    if call.is_prefill {
        if call.is_mtp_verify {
            match snapshots {
                None => Err(GdnError::MissingConvSnapshot { layer }),
                Some(len) => {
                    if call.token_count > len {
                        return Err(GdnError::SnapshotTokens { tokens: call.token_count, len });
                    }
                    Ok(
                        ConvPath::Prefill {
                            snapshots: Some(Slice { start: 0, len: call.token_count }),
                        },
                    )
                },
            }
        } else {
            Ok(ConvPath::Prefill { snapshots: None })
        }
    } else if call.token_count != call.slot_count {
        Err(GdnError::DecodeMismatch { tokens: call.token_count, slots: call.slot_count })
    } else {
        Ok(ConvPath::Decode)
    }
}

/// The answer of [`plan_conv`].
pub open spec fn conv_answer(c: GdnCall, layer: usize, snapshots: Option<usize>) -> Result<
    ConvPath,
    GdnError,
> {
    if c.slot_count == 0 {
        Err(GdnError::NoSlots)
    } else if c.is_prefill && c.is_mtp_verify {
        match snapshots {
            None => Err(GdnError::MissingConvSnapshot { layer }),
            Some(len) => if c.token_count > len {
                Err(GdnError::SnapshotTokens { tokens: c.token_count, len })
            } else {
                Ok(ConvPath::Prefill { snapshots: Some(Slice { start: 0, len: c.token_count }) })
            },
        }
    } else if c.is_prefill {
        Ok(ConvPath::Prefill { snapshots: None })
    } else if c.token_count != c.slot_count {
        Err(GdnError::DecodeMismatch { tokens: c.token_count, slots: c.slot_count })
    } else {
        Ok(ConvPath::Decode)
    }
}

/// How a forward pass runs the recurrence.
#[derive(Debug, Clone, Copy, PartialEq, Eq, Structural)]
pub enum RecurrencePath {
    /// Key heads shared by groups of value heads; the kernel scales the queries.
    PrefillGrouped { snapshots: Option<Slice> },
    /// A key head per value head; the queries are scaled before.
    PrefillScaled { snapshots: Option<Slice> },
    /// One token per sequence, state rows in place.
    Decode { batch: usize },
}

/// The recurrence of a forward pass whose convolution could run. The snapshots of a
/// verification stand in buffers of their own.
pub fn plan_recurrence_path(call: &GdnCall, dims: &GdnDims) -> (r: RecurrencePath)
    ensures
        r == recurrence_path(*call, *dims),
{
    if !call.is_prefill {
        return RecurrencePath::Decode { batch: call.slot_count };
    }
    let snapshots: Option<Slice> = if call.is_mtp_verify {
        Some(Slice { start: 0, len: call.token_count })
    } else {
        None
    };
    if dims.num_k_heads != dims.num_v_heads {
        RecurrencePath::PrefillGrouped { snapshots }
    } else {
        RecurrencePath::PrefillScaled { snapshots }
    }
}

/// The answer of [`plan_recurrence_path`].
pub open spec fn recurrence_path(c: GdnCall, d: GdnDims) -> RecurrencePath {
    let snapshots = if c.is_mtp_verify {
        Some(Slice { start: 0, len: c.token_count })
    } else {
        None
    };
    if !c.is_prefill {
        RecurrencePath::Decode { batch: c.slot_count }
    } else if d.num_k_heads != d.num_v_heads {
        RecurrencePath::PrefillGrouped { snapshots }
    } else {
        RecurrencePath::PrefillScaled { snapshots }
    }
}

/// The reshapes of a forward pass keep the number of elements: the query and key
/// columns, the value columns, and the output rows.
pub proof fn law_forward_shapes_keep_elements(d: GdnDims, tokens: int)
    requires
        d.wf(),
        tokens >= 0,
    ensures
        tokens * (d.num_k_heads * d.head_k_dim) == tokens * d.key_dim,
        tokens * (d.num_v_heads * d.head_v_dim) == tokens * d.value_dim,
        tokens * d.key_dim + tokens * d.key_dim + tokens * d.value_dim == tokens * d.d_conv,
{
    assert(tokens * d.key_dim + tokens * d.key_dim + tokens * d.value_dim == tokens * (2 * d.key_dim
        + d.value_dim)) by (nonlinear_arith);
}

/// The snapshot to go back to after a verification that keeps `keep_tokens`: none
/// when nothing is kept.
pub fn rollback_conv(
    layer: usize,
    keep_tokens: usize,
    snapshot_offset: usize,
    conv_len: Option<usize>,
) -> (r: Result<Option<usize>, GdnError>)
    ensures
        r == rollback_answer(layer, keep_tokens, snapshot_offset, conv_len),
{
    if keep_tokens == 0 {
        return Ok(None);
    }
    let idx: usize = match snapshot_offset.checked_add(keep_tokens - 1) {
        Some(i) => i,
        None => {
            return Err(GdnError::RollbackOverflow { layer });
        },
    };
    match conv_len {
        None => Err(GdnError::MissingConvSnapshot { layer }),
        Some(len) => {
            if idx >= len {
                Err(
                    GdnError::SnapshotRange {
                        index: idx,
                        len,
                        offset: snapshot_offset,
                        keep: keep_tokens,
                    },
                )
            } else {
                Ok(Some(idx))
            }
        },
    }
}

/// The answer of [`rollback_conv`].
pub open spec fn rollback_answer(
    layer: usize,
    keep_tokens: usize,
    snapshot_offset: usize,
    conv_len: Option<usize>,
) -> Result<Option<usize>, GdnError> {
    let idx = snapshot_offset + keep_tokens - 1;
    if keep_tokens == 0 {
        Ok(None)
    } else if idx > usize::MAX {
        Err(GdnError::RollbackOverflow { layer })
    } else {
        match conv_len {
            None => Err(GdnError::MissingConvSnapshot { layer }),
            Some(len) => if idx >= len {
                Err(
                    GdnError::SnapshotRange {
                        index: idx as usize,
                        len,
                        offset: snapshot_offset,
                        keep: keep_tokens,
                    },
                )
            } else {
                Ok(Some(idx as usize))
            },
        }
    }
}

/// Whether the recurrent snapshots hold the row that the convolution went back to.
pub fn rollback_recurrent(
    layer: usize,
    index: usize,
    keep_tokens: usize,
    snapshot_offset: usize,
    recurrent_len: Option<usize>,
) -> (r: Result<usize, GdnError>)
    ensures
        r == match recurrent_len {
            None => Err::<usize, GdnError>(GdnError::MissingRecurrentSnapshot { layer }),
            Some(len) => if index >= len {
                Err::<usize, GdnError>(
                    GdnError::SnapshotRange {
                        index,
                        len,
                        offset: snapshot_offset,
                        keep: keep_tokens,
                    },
                )
            } else {
                Ok::<usize, GdnError>(index)
            },
        },
{
    match recurrent_len {
        None => Err(GdnError::MissingRecurrentSnapshot { layer }),
        Some(len) => {
            if index >= len {
                Err(
                    GdnError::SnapshotRange {
                        index,
                        len,
                        offset: snapshot_offset,
                        keep: keep_tokens,
                    },
                )
            } else {
                Ok(index)
            }
        },
    }
}

// ---- The layer ----

/// A parameter to request, in singles. An optional one may be missing.
pub struct ParamRequest {
    pub name: String,
    pub shape: Vec<usize>,
    pub shard: Shard,
    pub optional: bool,
}

impl ParamRequest {
    /// Whether this asks for one dimension of `len`.
    pub open spec fn is(&self, name: Seq<char>, len: usize, shard: Shard, optional: bool) -> bool {
        &&& self.name@ == name
        &&& self.shape@ =~= seq![len]
        &&& self.shard == shard
        &&& self.optional == optional
    }

    fn new(name: String, len: usize, shard: Shard, optional: bool) -> (r: Self)
        ensures
            r.is(name@, len, shard, optional),
    {
        let mut shape: Vec<usize> = Vec::new();
        shape.push(len);
        ParamRequest { name, shape, shard, optional }
    }
}

/// A linear layer to request: its module, sizes and part, and how it is stored.
pub struct LinearRequest {
    pub path: String,
    pub in_dim: usize,
    pub out_dim: usize,
    pub shard: Shard,
    pub quant: WeightQuant,
}

impl LinearRequest {
    /// Whether this asks for the module `name` below `vb`.
    pub open spec fn is(
        &self,
        vb: ModuleAt,
        name: Seq<char>,
        in_dim: usize,
        out_dim: int,
        shard: Shard,
        quant_method: Option<Seq<char>>,
    ) -> bool {
        &&& self.path@ == vb.name_of(name)
        &&& self.in_dim == in_dim
        &&& self.out_dim == out_dim
        &&& self.shard == shard
        &&& self.quant == quant_below(vb, name, quant_method)
    }

    fn new(
        vb: &VarBuilderX,
        name: &str,
        in_dim: usize,
        out_dim: usize,
        shard: Shard,
        quant_method: Option<&str>,
    ) -> (r: Self)
        ensures
            r.is(vb@, name@, in_dim, out_dim as int, shard, text::given(quant_method)),
    {
        let part: VarBuilderX = vb.pp(name);
        let quant: WeightQuant = resolve_quant_for_weight(&part, quant_method);
        proof {
            lemma_listing_below(vb@, &part, name@);
        }
        LinearRequest { path: text::copy(part.path()), in_dim, out_dim, shard, quant }
    }
}

/// Whether the directory lists a name of the module `name` below `vb`.
pub open spec fn lists_below(vb: ModuleAt, name: Seq<char>, key: &str) -> bool {
    vb.lists_full(text::dotted(vb.name_of(name), key@))
}

/// How the weight of the module `name` below `vb` is stored.
pub open spec fn quant_below(
    vb: ModuleAt,
    name: Seq<char>,
    quant_method: Option<Seq<char>>,
) -> WeightQuant {
    let has = |key: &str| lists_below(vb, name, key);
    match quant_method {
        None => WeightQuant::Plain,
        Some(m) => if !vb.is_gguf && listed_as(m, has) {
            WeightQuant::AsConfigured
        } else if m == "nvfp4"@ && !vb.is_gguf && (has("weight_scale") || has(
            "weight_scale_inv",
        )) {
            WeightQuant::Fp8
        } else {
            WeightQuant::Plain
        },
    }
}

proof fn lemma_listing_below(vb: ModuleAt, part: &VarBuilderX, name: Seq<char>)
    requires
        part@ == vb.below(name),
    ensures
        forall|key: &str| #[trigger] lists_below(vb, name, key) == part.lists(key@),
        forall|m: Seq<char>|
            #![trigger quant_below(vb, name, Some(m))]
            quant_below(vb, name, Some(m)) == if weight_quantized(part, m) {
                WeightQuant::AsConfigured
            } else if m == "nvfp4"@ && weight_fp8(part) {
                WeightQuant::Fp8
            } else {
                WeightQuant::Plain
            },
{
    let below = |key: &str| lists_below(vb, name, key);
    let own = |key: &str| part.lists(key@);
    assert(below =~= own);
}

/// All requests for the projections. Which of them are made is up to the loading.
pub struct ProjectionRequests {
    pub qkvz: LinearRequest,
    pub ba: LinearRequest,
    pub z: LinearRequest,
    pub b: LinearRequest,
    pub a: LinearRequest,
    /// The whole `in_proj_qkv`.
    pub qkv: LinearRequest,
    /// The lengths of its three parts, for many ranks.
    pub chunks: Vec<usize>,
    /// Its parts cannot be cut: an asymmetric compressed weight.
    pub chunks_closed: bool,
}

/// What the norm of queries and keys to length one adds below its root: a millionth,
/// as the bits of a double.
pub const UNIT_EPS: u64 = 0x3eb0_c6f7_a0b5_ed8d;

/// A step of a forward pass.
#[derive(Debug, Clone, Copy, PartialEq, Eq)]
pub enum GdnStep {
    /// Convert the input to this type, where it has another one.
    ConvertInput(Dtype),
    /// Apply the projections.
    Project(ProjectionKind),
    /// Cut both fused projections, per key head.
    CutFused(FusedSplit),
    /// Cut the projected queries, keys and values apart.
    CutQkv(ConvSlices),
    /// Take queries, keys and values as the three chunks of a merged projection.
    TakeChunks,
    /// Convert all that was projected to this type, where the queries have another one.
    ConvertProjected(Dtype),
    /// Put queries, keys and values beside each other.
    JoinColumns,
    /// Gather the states of the convolution of the sequences.
    GatherConvState,
    /// Convolve over the gathered states, with snapshots of the given stretch; then a
    /// silu, where it is asked for.
    ConvolveGathered { snapshots: Option<Slice>, silu: bool },
    /// Write the gathered states back.
    StoreConvState,
    /// Convolve one token per sequence, with the states in place; then a silu, where it
    /// is asked for.
    ConvolveInPlace { silu: bool },
    /// Cut the convolved columns into queries, keys and values.
    CutColumns(ConvSlices),
    /// Compute decays and strengths `(tokens, value heads)` from the projected ones and
    /// the parameters of the layer.
    Gates((usize, usize)),
    /// Shape queries and keys `(tokens, key heads, key dim)`, and values
    /// `(tokens, value heads, value dim)`.
    Shape { qk: (usize, usize, usize), v: (usize, usize, usize) },
    /// Bring each head of queries and keys to length one.
    UnitQk { eps: u64 },
    /// Divide the queries by the root of the key head's length.
    ScaleQueries,
    /// Run the recurrence over the states of the sequences, in place.
    Recur(RecurrencePath),
    /// Shape the output `(tokens, value dim)`.
    Flatten((usize, usize)),
    /// Normalize groups of this length, and multiply them by the sigmoid of the gates or
    /// by the gates times their sigmoid.
    GatedNorm { eps: u64, sigmoid: bool, group: usize },
    /// Convert the gated output to this type.
    ConvertGated(Dtype),
    /// Apply the last projection.
    ProjectOutput,
    /// Convert the result to this type, where it has another one.
    ConvertBack(Dtype),
}

impl GdnStep {
    /// What a step converts its operand to, where it has type `got`: the queries decide
    /// for all that was projected.
    pub open spec fn conversion_of(&self, got: Dtype) -> Option<Dtype> {
        match *self {
            GdnStep::ConvertInput(to) => conversion(got, to),
            GdnStep::ConvertProjected(to) => conversion(got, to),
            GdnStep::ConvertGated(to) => Some(to),
            GdnStep::ConvertBack(to) => conversion(got, to),
            _ => None,
        }
    }

    /// What a step converts its operand to, in a type that the device gave.
    pub fn convert(&self, got: Dtype) -> (r: Option<Dtype>)
        ensures
            r == self.conversion_of(got),
    {
        match *self {
            GdnStep::ConvertInput(to) => convert_to(got, to),
            GdnStep::ConvertProjected(to) => convert_to(got, to),
            GdnStep::ConvertGated(to) => Some(to),
            GdnStep::ConvertBack(to) => convert_to(got, to),
            _ => None,
        }
    }
}

/// The layer as it is requested on a rank.
pub struct GatedDeltaNet {
    pub gdn_layer_idx: usize,
    pub dims: GdnDims,
    pub types: GdnTypes,
    pub a_log: ParamRequest,
    pub dt_bias: ParamRequest,
    /// `a_log` and `dt_bias` come whole and are cut for the rank.
    pub cut_params: bool,
    pub loader: ProjectionLoader,
    pub projections: ProjectionRequests,
    pub conv_weight_name: String,
    pub conv_weight: ConvWeight,
    pub conv_bias: ParamRequest,
    /// The channels of the rank.
    pub conv_slices: ConvSlices,
    pub out_proj: LinearRequest,
    /// What the gated norm adds below its root, as the bits of a double.
    pub norm_eps: u64,
    pub norm_weight: ParamRequest,
    pub norm_bias: ParamRequest,
    pub gate_sigmoid: bool,
    /// The shapes of the snapshot buffers, for speculative verification.
    pub snapshots: Option<(Vec<usize>, Vec<usize>)>,
}

/// The full name of parameter `i` below `vb`.
pub open spec fn param_name(vb: ModuleAt, i: int) -> Seq<char> {
    vb.name_of(
        if vb.is_gguf {
            gdn_names()[i].1@
        } else {
            gdn_names()[i].0@
        },
    )
}

/// The name of split projection `i`.
pub open spec fn split_name(vb: ModuleAt, i: int) -> Seq<char> {
    if vb.is_gguf {
        projection_names()[i].1@
    } else {
        projection_names()[i].0@
    }
}

impl ProjectionRequests {
    /// Whether these are the requests of a layer. Every projection is split along
    /// its output.
    pub open spec fn follow(
        &self,
        vb: ModuleAt,
        comm: Comm,
        config: Config,
        d: GdnDims,
    ) -> bool {
        let own = Shard { dim: 0, rank: comm.rank, world_size: comm.world_size };
        let h = config.hidden_size;
        let m = config.method();
        let (k, v, n) = (
            d.key_dim_global as int,
            d.value_dim_global as int,
            d.num_v_heads_global as int,
        );
        &&& self.qkvz.is(vb, "in_proj_qkvz"@, h, 2 * k + 2 * v, own, m)
        &&& self.ba.is(vb, "in_proj_ba"@, h, 2 * n, own, m)
        &&& self.qkv.is(vb, split_name(vb, 0), h, 2 * k + v, own, m)
        &&& self.z.is(vb, split_name(vb, 1), h, v, own, m)
        &&& self.b.is(vb, split_name(vb, 2), h, n, own, m)
        &&& self.a.is(vb, split_name(vb, 3), h, n, own, m)
        &&& self.chunks@ =~= seq![d.key_dim_global, d.key_dim_global, d.value_dim_global]
        &&& self.chunks_closed == (self.qkv.quant == WeightQuant::AsConfigured && (m matches Some(x)
            && x == "compressed-tensors"@) && config.sym == Some(false))
    }

    fn new(vb: &VarBuilderX, comm: &Comm, config: &Config, d: &GdnDims) -> (r: Self)
        requires
            d.wf(),
            2 * d.key_dim_global + 2 * d.value_dim_global <= usize::MAX,
            2 * d.num_v_heads_global <= usize::MAX,
        ensures
            r.follow(vb@, *comm, *config, *d),
    {
        let sizes: ProjectionSizes = d.projection_sizes();
        let own: Shard = Shard { dim: 0, rank: comm.rank, world_size: comm.world_size };
        let names: KeyMap<'static> = projection_key_map(vb.is_qvar_builder());
        let h: usize = config.hidden_size;
        let m: Option<&str> = config.quantization();
        let qkv: LinearRequest = LinearRequest::new(vb, names.pairs[0].1, h, sizes.qkv, own, m);
        let closed: bool = match qkv.quant {
            WeightQuant::AsConfigured => merged_qkv_is_closed(m, config.sym),
            _ => false,
        };
        let mut chunks: Vec<usize> = Vec::new();
        chunks.push(d.key_dim_global);
        chunks.push(d.key_dim_global);
        chunks.push(d.value_dim_global);
        ProjectionRequests {
            qkvz: LinearRequest::new(vb, "in_proj_qkvz", h, sizes.qkvz, own, m),
            ba: LinearRequest::new(vb, "in_proj_ba", h, sizes.ba, own, m),
            z: LinearRequest::new(vb, names.pairs[1].1, h, sizes.z, own, m),
            b: LinearRequest::new(vb, names.pairs[2].1, h, sizes.b, own, m),
            a: LinearRequest::new(vb, names.pairs[3].1, h, sizes.a, own, m),
            qkv,
            chunks,
            chunks_closed: closed,
        }
    }
}

/// What machine limits and divisions ask of the settings of a layer.
pub open spec fn fits_linear(config: Config, comm: Comm) -> bool {
    let h = config.hybrid;
    &&& h.num_k_heads > 0
    &&& comm.rank < comm.world_size
    &&& resolved_dims(h, comm.world_size as int) is Ok ==> {
        &&& 2 * (h.num_k_heads * h.key_head_dim) + 2 * (h.num_v_heads * h.value_head_dim)
            <= usize::MAX
        &&& 2 * h.num_v_heads <= usize::MAX
        &&& config.mtp_enabled ==> h.conv_kernel_size > 0
    }
}

impl GatedDeltaNet {
    /// Whether this is the layer that the settings describe.
    pub open spec fn follows(
        &self,
        vb: ModuleAt,
        comm: Comm,
        config: Config,
        gdn_layer_idx: usize,
        dtype: Dtype,
    ) -> bool {
        let d = dims_for(config.hybrid, comm.world_size as int);
        let own = Shard { dim: 0, rank: comm.rank, world_size: comm.world_size };
        let across = Shard { dim: 1, rank: comm.rank, world_size: comm.world_size };
        let whole = Shard { dim: 0, rank: 0, world_size: 0 };
        let q = comm.rank * d.key_dim;
        &&& self.gdn_layer_idx == gdn_layer_idx
        &&& self.dims == d
        &&& self.types.gdn_dtype == if vb.is_gguf || config.is_f16_mode {
            Dtype::F32
        } else {
            dtype
        }
        &&& self.types.model_dtype == if vb.is_gguf {
            Dtype::F32
        } else {
            dtype
        }
        &&& self.a_log.is(param_name(vb, 0), d.num_v_heads_global, own, false)
        &&& self.dt_bias.is(param_name(vb, 1), d.num_v_heads_global, own, false)
        &&& self.cut_params == vb.is_gguf
        &&& self.loader.world_size == comm.world_size
        &&& self.loader.is_quantized == config.quant_method is Some
        &&& self.loader.is_qvar_builder == vb.is_gguf
        &&& self.loader.step == ProjectionStep::LoadFused
        &&& self.loader.failures@.len() == 0
        &&& self.projections.follow(vb, comm, config, d)
        &&& self.conv_weight_name@ == param_name(vb, 2)
        &&& self.conv_weight == if vb.is_gguf {
            ConvWeight::Unsqueezed { channels: d.conv_dim_global, kernel: d.conv_kernel_size }
        } else {
            ConvWeight::Direct { channels: d.conv_dim_global, kernel: d.conv_kernel_size }
        }
        &&& self.conv_bias.is(param_name(vb, 3), d.conv_dim_global, whole, true)
        &&& self.conv_slices == (ConvSlices {
            q: Slice { start: q as usize, len: d.key_dim },
            k: Slice { start: (d.key_dim_global + q) as usize, len: d.key_dim },
            v: Slice {
                start: (2 * d.key_dim_global + comm.rank * d.value_dim) as usize,
                len: d.value_dim,
            },
        })
        &&& self.out_proj.is(
            vb,
            if vb.is_gguf {
                gdn_names()[4].1@
            } else {
                gdn_names()[4].0@
            },
            d.value_dim_global,
            config.hidden_size as int,
            across,
            config.method(),
        )
        &&& self.norm_eps == config.rms_norm_eps
        &&& self.norm_weight.is(param_name(vb, 5), d.head_v_dim, whole, false)
        &&& self.norm_bias.is(param_name(vb, 6), d.head_v_dim, whole, true)
        &&& self.gate_sigmoid == (config.output_gate_type matches Some(a)
            && text::same_ignoring_case(a@, "sigmoid"@))
        &&& match self.snapshots {
            Some((conv, rec)) => {
                let t: usize = if config.mtp_max_verify_tokens < 16 {
                    16
                } else {
                    config.mtp_max_verify_tokens
                };
                &&& config.mtp_enabled
                &&& conv@ == seq![t, d.d_conv, (d.conv_kernel_size - 1) as usize]
                &&& rec@ == seq![t, d.num_v_heads, d.head_k_dim, d.head_v_dim]
            },
            None => !config.mtp_enabled,
        }
    }

    /// The layer of a checkpoint, or why its heads do not divide.
    pub fn new(
        vb: &VarBuilderX,
        comm: &Comm,
        config: &Config,
        gdn_layer_idx: usize,
        dtype: Dtype,
    ) -> (r: Result<Self, GdnError>)
        requires
            fits_linear(*config, *comm),
        ensures
            match r {
                Ok(net) => resolved_dims(config.hybrid, comm.world_size as int) is Ok && net.follows(
                    vb@,
                    *comm,
                    *config,
                    gdn_layer_idx,
                    dtype,
                ),
                Err(e) => resolved_dims(config.hybrid, comm.world_size as int) == Err::<
                    GdnDims,
                    GdnError,
                >(e),
            },
    {
        proof {
            assert(config.hybrid.num_v_heads * config.hybrid.value_head_dim >= 0)
                by (nonlinear_arith);
        }
        let dims: GdnDims = match GdnDims::resolve(&config.hybrid, comm) {
            Ok(d) => d,
            Err(e) => {
                return Err(e);
            },
        };
        proof {
            law_resolved_dims_are_consistent(config.hybrid, comm.world_size as int);
        }
        let qvar: bool = vb.is_qvar_builder();
        let own: Shard = Shard { dim: 0, rank: comm.rank, world_size: comm.world_size };
        let across: Shard = Shard { dim: 1, rank: comm.rank, world_size: comm.world_size };
        let whole: Shard = Shard { dim: 0, rank: 0, world_size: 0 };
        let names: KeyMap<'static> = gdn_key_map(qvar);
        let heads: usize = dims.num_v_heads_global;
        let is_quantized: bool = config.quant_method.is_some();
        let snapshots: Option<(Vec<usize>, Vec<usize>)> = if config.mtp_enabled {
            Some(dims.snapshot_shapes(config.mtp_max_verify_tokens))
        } else {
            None
        };
        Ok(
            GatedDeltaNet {
                gdn_layer_idx,
                types: gdn_types(qvar, config.is_f16_mode, dtype),
                a_log: ParamRequest::new(vb.full_name(names.pairs[0].1), heads, own, false),
                dt_bias: ParamRequest::new(vb.full_name(names.pairs[1].1), heads, own, false),
                cut_params: qvar,
                loader: ProjectionLoader::new(comm.world_size, is_quantized, qvar),
                projections: ProjectionRequests::new(vb, comm, config, &dims),
                conv_weight_name: vb.full_name(names.pairs[2].1),
                conv_weight: dims.conv_weight(qvar),
                conv_bias: ParamRequest::new(
                    vb.full_name(names.pairs[3].1),
                    dims.conv_dim_global,
                    whole,
                    true,
                ),
                conv_slices: dims.conv_slices(comm),
                out_proj: LinearRequest::new(
                    vb,
                    names.pairs[4].1,
                    dims.value_dim_global,
                    config.hidden_size,
                    across,
                    config.quantization(),
                ),
                norm_eps: config.rms_norm_eps,
                norm_weight: ParamRequest::new(
                    vb.full_name(names.pairs[5].1),
                    dims.head_v_dim,
                    whole,
                    false,
                ),
                norm_bias: ParamRequest::new(
                    vb.full_name(names.pairs[6].1),
                    dims.head_v_dim,
                    whole,
                    true,
                ),
                gate_sigmoid: gate_is_sigmoid(config.output_gate()),
                snapshots,
                dims,
            },
        )
    }

    /// What brings the projected rows into queries, keys, values, gates, strengths and
    /// decays.
    pub open spec fn cut_step(&self, kind: ProjectionKind) -> GdnStep {
        match kind {
            ProjectionKind::FusedQkvzBa => GdnStep::CutFused(self.dims.fused_split_of()),
            ProjectionKind::SplitQkvZaLegacy => GdnStep::CutQkv(self.dims.columns_of()),
            ProjectionKind::SplitQkvZaMerged => GdnStep::TakeChunks,
        }
    }

    /// The steps up to the columns that are convolved.
    pub open spec fn input_steps(&self, kind: ProjectionKind) -> Seq<GdnStep> {
        seq![
            GdnStep::ConvertInput(self.types.model_dtype),
            GdnStep::Project(kind),
            self.cut_step(kind),
            GdnStep::ConvertProjected(self.types.gdn_dtype),
            GdnStep::JoinColumns,
        ]
    }

    /// The steps from the convolved columns to the recurrence.
    pub open spec fn head_steps(&self, tokens: usize) -> Seq<GdnStep> {
        let d = self.dims;
        seq![
            GdnStep::CutColumns(d.columns_of()),
            GdnStep::Gates((tokens, d.num_v_heads)),
            GdnStep::Shape {
                qk: (tokens, d.num_k_heads, d.head_k_dim),
                v: (tokens, d.num_v_heads, d.head_v_dim),
            },
            GdnStep::UnitQk { eps: UNIT_EPS },
        ]
    }

    /// The steps from the recurrence to the result.
    pub open spec fn output_steps(&self, tokens: usize, input: Dtype) -> Seq<GdnStep> {
        seq![
            GdnStep::Flatten((tokens, self.dims.value_dim)),
            GdnStep::GatedNorm {
                eps: self.norm_eps,
                sigmoid: self.gate_sigmoid,
                group: self.dims.head_v_dim,
            },
            GdnStep::ConvertGated(self.types.model_dtype),
            GdnStep::ProjectOutput,
            GdnStep::ConvertBack(input),
        ]
    }

    /// The steps of a forward pass whose convolution can run, in order.
    pub open spec fn forward_steps(
        &self,
        call: GdnCall,
        conv: ConvPath,
        kind: ProjectionKind,
        input: Dtype,
    ) -> Seq<GdnStep> {
        self.input_steps(kind) + conv_steps(conv) + self.head_steps(call.token_count)
            + recurrence_steps(recurrence_path(call, self.dims)) + self.output_steps(
            call.token_count,
            input,
        )
    }

    fn push_input(&self, steps: &mut Vec<GdnStep>, kind: ProjectionKind)
        requires
            self.dims.wf(),
            kind is FusedQkvzBa ==> self.dims.fits_fused(),
        ensures
            final(steps)@ == old(steps)@ + self.input_steps(kind),
    {
        let cut: GdnStep = match kind {
            ProjectionKind::FusedQkvzBa => GdnStep::CutFused(self.dims.fused_split()),
            ProjectionKind::SplitQkvZaLegacy => GdnStep::CutQkv(self.dims.columns()),
            ProjectionKind::SplitQkvZaMerged => GdnStep::TakeChunks,
        };
        steps.push(GdnStep::ConvertInput(self.types.model_dtype));
        steps.push(GdnStep::Project(kind));
        steps.push(cut);
        steps.push(GdnStep::ConvertProjected(self.types.gdn_dtype));
        steps.push(GdnStep::JoinColumns);
        assert(steps@ =~= old(steps)@ + self.input_steps(kind));
    }

    fn push_heads(&self, steps: &mut Vec<GdnStep>, tokens: usize)
        requires
            self.dims.wf(),
        ensures
            final(steps)@ == old(steps)@ + self.head_steps(tokens),
    {
        let d: &GdnDims = &self.dims;
        steps.push(GdnStep::CutColumns(d.columns()));
        steps.push(GdnStep::Gates((tokens, d.num_v_heads)));
        steps.push(
            GdnStep::Shape {
                qk: (tokens, d.num_k_heads, d.head_k_dim),
                v: (tokens, d.num_v_heads, d.head_v_dim),
            },
        );
        steps.push(GdnStep::UnitQk { eps: UNIT_EPS });
        assert(steps@ =~= old(steps)@ + self.head_steps(tokens));
    }

    fn push_output(&self, steps: &mut Vec<GdnStep>, tokens: usize, input: Dtype)
        ensures
            final(steps)@ == old(steps)@ + self.output_steps(tokens, input),
    {
        steps.push(GdnStep::Flatten((tokens, self.dims.value_dim)));
        steps.push(
            GdnStep::GatedNorm {
                eps: self.norm_eps,
                sigmoid: self.gate_sigmoid,
                group: self.dims.head_v_dim,
            },
        );
        steps.push(GdnStep::ConvertGated(self.types.model_dtype));
        steps.push(GdnStep::ProjectOutput);
        steps.push(GdnStep::ConvertBack(input));
        assert(steps@ =~= old(steps)@ + self.output_steps(tokens, input));
    }

    /// Plans a forward pass of a layer with a loaded projection, for an input of a type.
    pub fn plan_forward(&self, call: &GdnCall, kind: ProjectionKind, input: Dtype) -> (r: Result<
        Vec<GdnStep>,
        GdnError,
    >)
        requires
            self.dims.wf(),
            self.snapshots_agree(),
            call.slot_count > 0 && call.is_prefill ==> call.has_bounds,
            kind is FusedQkvzBa ==> self.dims.fits_fused(),
        ensures
            match conv_answer(*call, self.gdn_layer_idx, self.snapshot_len()) {
                Err(e) => r == Err::<Vec<GdnStep>, GdnError>(e),
                Ok(conv) => r matches Ok(steps) && steps@ == self.forward_steps(
                    *call,
                    conv,
                    kind,
                    input,
                ),
            },
    {
        let snapshots: Option<usize> = match &self.snapshots {
            Some(shapes) => Some(shapes.0[0]),
            None => None,
        };
        let conv: ConvPath = match plan_conv(call, self.gdn_layer_idx, snapshots) {
            Ok(c) => c,
            Err(e) => {
                return Err(e);
            },
        };
        let mut steps: Vec<GdnStep> = Vec::new();
        self.push_input(&mut steps, kind);
        assert(steps@ =~= self.input_steps(kind));
        push_conv(&mut steps, conv);
        self.push_heads(&mut steps, call.token_count);
        push_recurrence(&mut steps, plan_recurrence_path(call, &self.dims));
        self.push_output(&mut steps, call.token_count, input);
        Ok(steps)
    }
}

/// The steps of a convolution, in order.
pub open spec fn conv_steps(conv: ConvPath) -> Seq<GdnStep> {
    match conv {
        ConvPath::Prefill { snapshots } => seq![
            GdnStep::GatherConvState,
            GdnStep::ConvolveGathered { snapshots, silu: true },
            GdnStep::StoreConvState,
        ],
        ConvPath::Decode => seq![GdnStep::ConvolveInPlace { silu: true }],
    }
}

fn push_conv(steps: &mut Vec<GdnStep>, conv: ConvPath)
    ensures
        final(steps)@ == old(steps)@ + conv_steps(conv),
{
    match conv {
        ConvPath::Prefill { snapshots } => {
            steps.push(GdnStep::GatherConvState);
            steps.push(GdnStep::ConvolveGathered { snapshots, silu: true });
            steps.push(GdnStep::StoreConvState);
        },
        ConvPath::Decode => {
            steps.push(GdnStep::ConvolveInPlace { silu: true });
        },
    }
    assert(steps@ =~= old(steps)@ + conv_steps(conv));
}

/// The steps of a recurrence, in order: where every value head has its own key head,
/// the queries are scaled before.
pub open spec fn recurrence_steps(path: RecurrencePath) -> Seq<GdnStep> {
    if path is PrefillScaled {
        seq![GdnStep::ScaleQueries, GdnStep::Recur(path)]
    } else {
        seq![GdnStep::Recur(path)]
    }
}

fn push_recurrence(steps: &mut Vec<GdnStep>, path: RecurrencePath)
    ensures
        final(steps)@ == old(steps)@ + recurrence_steps(path),
{
    if let RecurrencePath::PrefillScaled { .. } = path {
        steps.push(GdnStep::ScaleQueries);
    }
    steps.push(GdnStep::Recur(path));
    assert(steps@ =~= old(steps)@ + recurrence_steps(path));
}

/// A rollback: the snapshot that both states go back to, and the conversion of the
/// convolution's snapshot to the type of its state.
#[derive(Debug, Clone, Copy, PartialEq, Eq, Structural)]
pub struct Rollback {
    pub index: usize,
    pub convert_conv: Option<Dtype>,
}

impl GatedDeltaNet {
    /// How many snapshots the buffers hold.
    pub open spec fn snapshot_len(&self) -> Option<usize> {
        match self.snapshots {
            Some((conv, _)) => Some(conv@[0]),
            None => None,
        }
    }

    /// Both snapshot buffers hold as many snapshots.
    pub open spec fn snapshots_agree(&self) -> bool {
        self.snapshots matches Some((conv, rec)) ==> conv@.len() > 0 && rec@.len() > 0 && conv@[0]
            == rec@[0]
    }

    /// The rollback after a verification. The snapshots of the convolution have the type
    /// in which the layer computes.
    pub open spec fn rolled_back(
        &self,
        keep_tokens: usize,
        snapshot_offset: usize,
        state_dtype: Dtype,
    ) -> Result<Option<Rollback>, GdnError> {
        match rollback_answer(
            self.gdn_layer_idx,
            keep_tokens,
            snapshot_offset,
            self.snapshot_len(),
        ) {
            Err(e) => Err(e),
            Ok(None) => Ok(None),
            Ok(Some(index)) => Ok(
                Some(
                    Rollback { index, convert_conv: conversion(self.types.gdn_dtype, state_dtype) },
                ),
            ),
        }
    }

    /// The rollback after a verification from the first snapshot on.
    pub fn rollback_mtp_verify(&self, keep_tokens: usize, state_dtype: Dtype) -> (r: Result<
        Option<Rollback>,
        GdnError,
    >)
        requires
            self.snapshots_agree(),
        ensures
            r == self.rolled_back(keep_tokens, 0, state_dtype),
    {
        self.rollback_mtp_verify_at(keep_tokens, 0, state_dtype)
    }

    /// The rollback after a verification that keeps `keep_tokens` tokens, whose
    /// snapshots start at `snapshot_offset`: the snapshot after the last kept token.
    /// None when nothing is kept.
    pub fn rollback_mtp_verify_at(
        &self,
        keep_tokens: usize,
        snapshot_offset: usize,
        state_dtype: Dtype,
    ) -> (r: Result<Option<Rollback>, GdnError>)
        requires
            self.snapshots_agree(),
        ensures
            r == self.rolled_back(keep_tokens, snapshot_offset, state_dtype),
    {
        let layer: usize = self.gdn_layer_idx;
        let (conv_len, recurrent_len): (Option<usize>, Option<usize>) = match &self.snapshots {
            Some(shapes) => (Some(shapes.0[0]), Some(shapes.1[0])),
            None => (None, None),
        };
        let index: usize = match rollback_conv(layer, keep_tokens, snapshot_offset, conv_len) {
            Ok(Some(index)) => index,
            Ok(None) => {
                return Ok(None);
            },
            Err(e) => {
                return Err(e);
            },
        };
        match rollback_recurrent(layer, index, keep_tokens, snapshot_offset, recurrent_len) {
            Ok(index) => Ok(
                Some(
                    Rollback { index, convert_conv: convert_to(self.types.gdn_dtype, state_dtype) },
                ),
            ),
            Err(e) => Err(e),
        }
    }
}

/// A layer that settings describe has snapshot buffers that agree, of at least 16
/// tokens. So a verification of up to 16 tokens, started at the first snapshot, takes
/// all its snapshots and can be rolled back to any of its tokens.
pub proof fn law_verified_tokens_roll_back(
    net: GatedDeltaNet,
    vb: ModuleAt,
    comm: Comm,
    config: Config,
    gdn_layer_idx: usize,
    dtype: Dtype,
    call: GdnCall,
    keep_tokens: usize,
    state_dtype: Dtype,
)
    requires
        net.follows(vb, comm, config, gdn_layer_idx, dtype),
        config.mtp_enabled,
        call.slot_count > 0,
        call.is_prefill,
        call.is_mtp_verify,
        0 < keep_tokens <= call.token_count,
        call.token_count <= 16 || call.token_count <= config.mtp_max_verify_tokens,
    ensures
        net.snapshots_agree(),
        conv_answer(call, gdn_layer_idx, net.snapshot_len()) == Ok::<ConvPath, GdnError>(
            ConvPath::Prefill { snapshots: Some(Slice { start: 0, len: call.token_count }) },
        ),
        net.rolled_back(keep_tokens, 0, state_dtype) == Ok::<Option<Rollback>, GdnError>(
            Some(
                Rollback {
                    index: (keep_tokens - 1) as usize,
                    convert_conv: conversion(net.types.gdn_dtype, state_dtype),
                },
            ),
        ),
{
}

} // verus!
