//! Mixture of experts: routing settings, block sizes and quantization checks.

use super::deltanet::{self, convert_to};
use super::distributed::Comm;
use super::linear::{self, LinearPlan};
use super::mlp::Activation;
use super::tensor::Shard;
use super::var_builder::VarBuilderX;
use crate::dtype::Dtype;
use crate::text;
use vstd::prelude::*;

verus! {

/// The expert settings of a checkpoint.
pub struct MoEConfig {
    pub num_experts: Option<usize>,
    pub num_experts_per_tok: usize,
    pub topk_method: Option<String>,
    pub scoring_func: Option<String>,
    pub n_group: Option<usize>,
    pub topk_group: Option<usize>,
    pub norm_topk_prob: bool,
    /// The bits of a double.
    pub routed_scaling_factor: Option<u64>,
}

/// How tokens are routed. `T` is the tensor handle of the device.
pub struct MoeRouting<T> {
    pub e_score_correction_bias: Option<T>,
    pub use_sigmoid_scoring: bool,
    pub n_group: usize,
    pub topk_group: usize,
    pub norm_topk_prob: bool,
    pub routed_scaling_factor: Option<u64>,
    pub num_experts_per_tok: usize,
}

/// Whether a setting is given and equals `text`.
pub open spec fn is_given(s: Option<String>, text: &str) -> bool {
    s matches Some(v) && v@ == text@
}

fn given(s: &Option<String>, t: &str) -> (r: bool)
    ensures
        r == is_given(*s, t),
{
    match s {
        Some(v) => text::same_text(v.as_str(), t),
        None => false,
    }
}

/// The scores by which a token chooses its experts.
#[derive(Debug, Clone, Copy, PartialEq, Eq, Structural)]
pub enum RouteScores {
    /// The sigmoid of the logits, plus the correction bias.
    SigmoidPlusBias,
    /// The sigmoid of the logits.
    Sigmoid,
    /// The logits.
    Logits,
}

impl<T> MoeRouting<T> {
    /// Whether this is the routing of a checkpoint.
    pub open spec fn follows(&self, cfg: MoEConfig, bias: Option<T>) -> bool {
        &&& self.e_score_correction_bias == bias
        &&& self.use_sigmoid_scoring == (is_given(cfg.topk_method, "noaux_tc") || is_given(
            cfg.scoring_func,
            "sigmoid",
        ))
        &&& self.n_group == match cfg.n_group {
            Some(n) => n,
            None => 1,
        }
        &&& self.topk_group == match cfg.topk_group {
            Some(n) => n,
            None => 1,
        }
        &&& self.norm_topk_prob == cfg.norm_topk_prob
        &&& self.routed_scaling_factor == cfg.routed_scaling_factor
        &&& self.num_experts_per_tok == cfg.num_experts_per_tok
    }

    /// The routing of a checkpoint.
    pub fn from_moe_cfg(cfg: &MoEConfig, bias: Option<T>) -> (r: Self)
        ensures
            r.follows(*cfg, bias),
    {
        let use_sigmoid: bool = given(&cfg.topk_method, "noaux_tc") || given(
            &cfg.scoring_func,
            "sigmoid",
        );
        MoeRouting {
            e_score_correction_bias: bias,
            use_sigmoid_scoring: use_sigmoid,
            n_group: match cfg.n_group {
                Some(n) => n,
                None => 1,
            },
            topk_group: match cfg.topk_group {
                Some(n) => n,
                None => 1,
            },
            norm_topk_prob: cfg.norm_topk_prob,
            routed_scaling_factor: cfg.routed_scaling_factor,
            num_experts_per_tok: cfg.num_experts_per_tok,
        }
    }

    /// The scores of which the largest `num_experts_per_tok` are taken.
    pub fn route(&self) -> (r: RouteScores)
        ensures
            r == if !self.use_sigmoid_scoring {
                RouteScores::Logits
            } else if self.e_score_correction_bias is Some {
                RouteScores::SigmoidPlusBias
            } else {
                RouteScores::Sigmoid
            },
    {
        if !self.use_sigmoid_scoring {
            RouteScores::Logits
        } else if self.e_score_correction_bias.is_some() {
            RouteScores::SigmoidPlusBias
        } else {
            RouteScores::Sigmoid
        }
    }
}

/// The block size for a number of routed slots.
pub open spec fn moe_block_size(slots: usize) -> usize {
    if slots <= 4 {
        4
    } else if slots <= 16 {
        16
    } else {
        32
    }
}

/// The block size for a number of routed slots; the number of experts does not
/// matter.
pub fn pick_moe_block_size(slots: usize, num_experts: usize) -> (r: usize)
    ensures
        r == moe_block_size(slots),
{
    let _ = num_experts;
    if slots <= 4 {
        4
    } else if slots <= 16 {
        16
    } else {
        32
    }
}

/// The type of the router: singles where the model asks for more precision.
pub open spec fn router_dtype(higher_precision_required: bool, dtype: Dtype) -> Dtype {
    if higher_precision_required {
        Dtype::F32
    } else {
        dtype
    }
}

fn gate_dtype_of(higher_precision_required: bool, dtype: Dtype) -> (r: Dtype)
    ensures
        r == router_dtype(higher_precision_required, dtype),
{
    if higher_precision_required {
        Dtype::F32
    } else {
        dtype
    }
}

/// Unquantized experts.
pub struct FusedMoe<T> {
    /// The module of the router.
    pub gate_path: String,
    /// From the hidden size to one logit per expert.
    pub gate: LinearPlan,
    /// The module of the experts.
    pub experts_path: String,
    pub act: Activation,
    pub routing: MoeRouting<T>,
    pub world_size: usize,
    pub dtype: Dtype,
    pub gate_dtype: Dtype,
}

impl<T> FusedMoe<T> {
    /// The experts of a checkpoint: the router below `gate`, the experts below
    /// `experts`.
    pub fn new(
        moe_cfg: &MoEConfig,
        hidden_size: usize,
        hidden_act: Activation,
        higher_precision_required: bool,
        is_quantized: bool,
        vb: &VarBuilderX,
        comm: &Comm,
        dtype: Dtype,
    ) -> (r: Self)
        requires
            moe_cfg.num_experts is Some,
            !is_quantized,
        ensures
            r.gate_path@ == text::dotted(vb.path@, "gate"@),
            r.gate.is_plain(
                hidden_size,
                moe_cfg.num_experts->0,
                (Shard { dim: 0, rank: 0, world_size: 0 }),
                router_dtype(higher_precision_required, dtype),
                false,
            ),
            r.experts_path@ == text::dotted(vb.path@, "experts"@),
            r.act == hidden_act,
            r.routing.follows(*moe_cfg, None),
            r.world_size == comm.world_size,
            r.dtype == dtype,
            r.gate_dtype == router_dtype(higher_precision_required, dtype),
    {
        let gate_dtype: Dtype = gate_dtype_of(higher_precision_required, dtype);
        let num_experts: usize = match moe_cfg.num_experts {
            Some(n) => n,
            None => 0,
        };
        let whole: Shard = Shard { dim: 0, rank: 0, world_size: 0 };
        FusedMoe {
            gate_path: vb.full_name("gate"),
            gate: linear::linear_no_bias(hidden_size, num_experts, whole, gate_dtype),
            experts_path: vb.full_name("experts"),
            act: hidden_act,
            routing: MoeRouting::from_moe_cfg(moe_cfg, None),
            world_size: comm.world_size,
            dtype,
            gate_dtype,
        }
    }

    /// The conversion of an input for the router.
    pub fn gate_conversion(&self, input: Dtype) -> (r: Option<Dtype>)
        ensures
            r == deltanet::conversion(input, self.gate_dtype),
    {
        convert_to(input, self.gate_dtype)
    }
}

/// The length of each half of the joined gate and up weights.
pub fn w_size_n(gate_up_dim1: usize) -> (r: usize)
    ensures
        r == gate_up_dim1 / 2,
{
    gate_up_dim1 / 2
}

/// Quantized experts that cannot be loaded.
#[derive(Debug, Clone, Copy, PartialEq, Eq, Structural)]
pub struct Wna16Error {
    pub bits: usize,
    pub group_size: i32,
}

/// Experts with 4 or 8 bit weights.
pub struct FusedMoeWNA16<T> {
    pub act: Activation,
    pub routing: MoeRouting<T>,
    pub world_size: usize,
    pub dtype: Dtype,
    pub bits: usize,
    pub group_size: usize,
    pub gate_dtype: Dtype,
    pub legacy_gptq: bool,
}

impl<T> FusedMoeWNA16<T> {
    /// Whether these experts can be loaded: 4 or 8 bits, and groups of a positive
    /// size.
    pub open spec fn supports(bits: usize, group_size: i32) -> bool {
        (bits == 4 || bits == 8) && group_size > 0
    }

    pub fn new(
        moe_cfg: &MoEConfig,
        hidden_act: Activation,
        higher_precision_required: bool,
        comm: &Comm,
        dtype: Dtype,
        bits: usize,
        group_size: i32,
        quant_method: &str,
    ) -> (r: Result<Self, Wna16Error>)
        ensures
            match r {
                Ok(m) => {
                    &&& Self::supports(bits, group_size)
                    &&& m.act == hidden_act
                    &&& m.routing.follows(*moe_cfg, None)
                    &&& m.world_size == comm.world_size
                    &&& m.dtype == dtype
                    &&& m.bits == bits
                    &&& m.group_size == group_size
                    &&& m.gate_dtype == router_dtype(higher_precision_required, dtype)
                    &&& m.legacy_gptq == (quant_method@ == "gptq"@)
                },
                Err(e) => !Self::supports(bits, group_size) && e == (Wna16Error {
                    bits,
                    group_size,
                }),
            },
    {
        let legacy_gptq: bool = text::same_text(quant_method, "gptq");
        if !(bits == 4 || bits == 8) || group_size <= 0 {
            return Err(Wna16Error { bits, group_size });
        }
        Ok(
            FusedMoeWNA16 {
                act: hidden_act,
                routing: MoeRouting::from_moe_cfg(moe_cfg, None),
                world_size: comm.world_size,
                dtype,
                bits,
                group_size: group_size as usize,
                gate_dtype: gate_dtype_of(higher_precision_required, dtype),
                legacy_gptq,
            },
        )
    }

    /// The conversion of an input for the router.
    pub fn gate_conversion(&self, input: Dtype) -> (r: Option<Dtype>)
        ensures
            r == deltanet::conversion(input, self.gate_dtype),
    {
        convert_to(input, self.gate_dtype)
    }
}

/// Marks experts of a quantized single file.
pub struct FusedMoeGGUF {
    _priv: (),
}

/// Marks experts that are quantized while they are loaded.
pub struct FusedMoeISQ {
    _priv: (),
}

} // verus!
