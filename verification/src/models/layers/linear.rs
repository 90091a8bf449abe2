//! Linear layers: how a weight is requested, which kind of layer holds it, and
//! which product a forward pass makes. `T` is the tensor handle of the device.

use super::tensor::{GgmlDType, Shard};
use super::var_builder::VarBuilderX;
use super::wna16::{PrequantError, WNA16};
use crate::dtype::Dtype;
use crate::text;
use vstd::prelude::*;

verus! {

/// Marks the directory of a quantized single file.
pub struct GgufVarBuilderStub;

/// Whether the linear layers run a prefill now.
#[derive(Debug, Clone, Copy, PartialEq, Eq, Structural)]
pub struct LinearMode {
    pub is_prefill: bool,
}

/// The mode to go back to.
#[derive(Debug, Clone, Copy, PartialEq, Eq, Structural)]
pub struct LinearPrefillGuard {
    pub prev: bool,
}

impl LinearMode {
    /// The mode after it was set.
    pub open spec fn after_set(self, is_prefill: bool) -> LinearMode {
        LinearMode { is_prefill }
    }

    /// The guard that a setting leaves behind.
    pub open spec fn guard(self) -> LinearPrefillGuard {
        LinearPrefillGuard { prev: self.is_prefill }
    }

    /// The mode after a guard was given back.
    pub open spec fn after_restore(self, guard: LinearPrefillGuard) -> LinearMode {
        LinearMode { is_prefill: guard.prev }
    }

    /// Not in a prefill.
    pub fn new() -> (r: Self)
        ensures
            r == (LinearMode { is_prefill: false }),
    {
        LinearMode { is_prefill: false }
    }

    /// Goes back to the mode before the guard was taken.
    pub fn restore(&mut self, guard: LinearPrefillGuard)
        ensures
            *final(self) == old(self).after_restore(guard),
    {
        self.is_prefill = guard.prev;
    }
}

/// Sets the mode; the guard remembers the one before.
pub fn set_linear_is_prefill(mode: &mut LinearMode, is_prefill: bool) -> (g: LinearPrefillGuard)
    ensures
        g == old(mode).guard(),
        *final(mode) == old(mode).after_set(is_prefill),
{
    let prev: bool = mode.is_prefill;
    mode.is_prefill = is_prefill;
    LinearPrefillGuard { prev }
}

/// Whether the linear layers run a prefill now.
pub fn linear_is_prefill(mode: &LinearMode) -> (r: bool)
    ensures
        r == mode.is_prefill,
{
    mode.is_prefill
}

/// The part `rank` of a tensor that is split along `dim`.
pub fn shard(dim: usize, rank: usize, world_size: usize) -> (r: Shard)
    ensures
        r == (Shard { dim, rank, world_size }),
{
    Shard { dim, rank, world_size }
}

/// A stretch of one dimension.
#[derive(Debug, Clone, Copy, PartialEq, Eq, Structural)]
pub struct Slice {
    pub start: usize,
    pub len: usize,
}

/// A weight to request: its name below the layer, its shape, and its part.
pub struct WeightRequest {
    pub name: &'static str,
    pub shape: Vec<usize>,
    pub shard: Shard,
}

/// How a linear layer is loaded: the weight, its final type, and whether a bias
/// named `bias` of the given length is taken where it is listed.
pub struct LinearPlan {
    pub weight: WeightRequest,
    pub dtype: Dtype,
    pub bias: Option<usize>,
}

impl LinearPlan {
    /// The plan for the weight `(out_dim, in_dim)`.
    pub open spec fn is_plain(
        &self,
        in_dim: usize,
        out_dim: usize,
        shard: Shard,
        dtype: Dtype,
        bias: bool,
    ) -> bool {
        &&& self.weight.name@ == "weight"@
        &&& self.weight.shape@ == seq![out_dim, in_dim]
        &&& self.weight.shard == shard
        &&& self.dtype == dtype
        &&& self.bias == if bias {
            Some(out_dim)
        } else {
            None
        }
    }
}

fn two(a: usize, b: usize) -> (r: Vec<usize>)
    ensures
        r@ == seq![a, b],
{
    let mut v: Vec<usize> = Vec::new();
    v.push(a);
    v.push(b);
    v
}

/// A layer without bias.
pub fn linear_no_bias(in_dim: usize, out_dim: usize, shard: Shard, dtype: Dtype) -> (r: LinearPlan)
    ensures
        r.is_plain(in_dim, out_dim, shard, dtype, false),
{
    LinearPlan {
        weight: WeightRequest { name: "weight", shape: two(out_dim, in_dim), shard },
        dtype,
        bias: None,
    }
}

/// The weights of all experts in one tensor: the shard moves one dimension in.
pub fn linear_no_bias_merged(
    num_experts: usize,
    in_dim: usize,
    out_dim: usize,
    shards: Shard,
    dtype: Dtype,
) -> (r: LinearPlan)
    requires
        shards.dim < usize::MAX,
    ensures
        r.weight.name@ == "weight"@,
        r.weight.shape@ == seq![num_experts, out_dim, in_dim],
        r.weight.shard == (Shard {
            dim: (shards.dim + 1) as usize,
            rank: shards.rank,
            world_size: shards.world_size,
        }),
        r.dtype == dtype,
        r.bias is None,
{
    let sd: Shard = shard(shards.dim + 1, shards.rank, shards.world_size);
    let mut shape: Vec<usize> = Vec::new();
    shape.push(num_experts);
    shape.push(out_dim);
    shape.push(in_dim);
    LinearPlan { weight: WeightRequest { name: "weight", shape, shard: sd }, dtype, bias: None }
}

/// A layer with a bias where one is listed.
pub fn linear(in_dim: usize, out_dim: usize, shard: Shard, dtype: Dtype) -> (r: LinearPlan)
    ensures
        r.is_plain(in_dim, out_dim, shard, dtype, true),
{
    LinearPlan {
        weight: WeightRequest { name: "weight", shape: two(out_dim, in_dim), shard },
        dtype,
        bias: Some(out_dim),
    }
}

/// A layer with or without bias.
pub fn linear_b(in_dim: usize, out_dim: usize, bias: bool, shard: Shard, dtype: Dtype) -> (r:
    LinearPlan)
    ensures
        r.is_plain(in_dim, out_dim, shard, dtype, bias),
{
    if bias {
        linear(in_dim, out_dim, shard, dtype)
    } else {
        linear_no_bias(in_dim, out_dim, shard, dtype)
    }
}

/// The part of a bias of length `dim_size` that a shard keeps.
pub open spec fn bias_part(dim_size: usize, shard: Shard) -> (int, int) {
    if shard.world_size > 1 {
        (
            shard.rank * (dim_size as int / shard.world_size as int),
            dim_size as int / shard.world_size as int,
        )
    } else {
        (0, dim_size as int)
    }
}

/// The part of a bias of length `dim_size` that a shard keeps.
pub fn bias_slice(dim_size: usize, shard: Shard) -> (r: Slice)
    requires
        shard.world_size > 1 ==> shard.rank < shard.world_size,
    ensures
        r.start == bias_part(dim_size, shard).0,
        r.len == bias_part(dim_size, shard).1,
        r.start + r.len <= dim_size,
{
    if shard.world_size > 1 {
        let len: usize = dim_size / shard.world_size;
        proof {
            lemma_part_fits(dim_size as int, shard.rank as int, shard.world_size as int);
        }
        Slice { start: shard.rank * len, len }
    } else {
        Slice { start: 0, len: dim_size }
    }
}

pub proof fn lemma_part_fits(total: int, rank: int, parts: int)
    by (nonlinear_arith)
    requires
        parts > 0,
        0 <= rank < parts,
        total >= 0,
    ensures
        0 <= rank * (total / parts),
        rank * (total / parts) + total / parts <= total,
{
    let len = total / parts;
    assert(len * parts <= total);
    assert((rank + 1) * len <= parts * len);
}

/// The bias parts of two different ranks do not overlap, and the next rank goes
/// on where a rank ends.
pub proof fn law_bias_parts_follow_each_other(dim_size: usize, a: Shard, b: Shard)
    requires
        a.world_size > 1,
        b.world_size == a.world_size,
        a.rank < b.rank,
    ensures
        bias_part(dim_size, a).0 + bias_part(dim_size, a).1 <= bias_part(dim_size, b).0,
        b.rank == a.rank + 1 ==> bias_part(dim_size, a).0 + bias_part(dim_size, a).1 == bias_part(
            dim_size,
            b,
        ).0,
{
    let len = dim_size as int / a.world_size as int;
    assert(len >= 0) by (nonlinear_arith)
        requires
            len == dim_size as int / a.world_size as int,
            a.world_size > 1,
    ;
    assert((a.rank + 1) * len == a.rank * len + len) by (nonlinear_arith);
    assert((a.rank + 1) * len <= b.rank * len) by (nonlinear_arith)
        requires
            a.rank + 1 <= b.rank,
            len >= 0,
    ;
}

/// How the input of a linear layer meets the transposed weight.
#[derive(Debug, Clone, Copy, PartialEq, Eq, Structural)]
pub enum LinearProduct {
    /// The weight is repeated over the two outer dimensions.
    BroadcastTwo { outer: usize, inner: usize },
    /// The weight is repeated over the outer dimension.
    BroadcastOne { outer: usize },
    /// One token per sequence: `(rows, dim)` times the weight, and back to
    /// `(batch, seq_len, out)`.
    Flattened { rows: usize, dim: usize, batch: usize, seq_len: usize },
    /// A plain product.
    Plain,
}

/// The product for an input of these dimensions.
pub open spec fn product_of(dims: Seq<usize>) -> LinearProduct {
    if dims.len() == 4 && dims[1] > 1 {
        LinearProduct::BroadcastTwo { outer: dims[0], inner: dims[1] }
    } else if dims.len() == 3 && dims[1] > 1 {
        LinearProduct::BroadcastOne { outer: dims[0] }
    } else if dims.len() == 3 {
        LinearProduct::Flattened {
            rows: (dims[0] * dims[1]) as usize,
            dim: dims[2],
            batch: dims[0],
            seq_len: dims[1],
        }
    } else {
        LinearProduct::Plain
    }
}

/// The product for an input of these dimensions.
pub fn linear_product(dims: &[usize]) -> (r: LinearProduct)
    ensures
        r == product_of(dims@),
{
    if dims.len() == 4 && dims[1] > 1 {
        return LinearProduct::BroadcastTwo { outer: dims[0], inner: dims[1] };
    }
    if dims.len() == 3 {
        if dims[1] > 1 {
            return LinearProduct::BroadcastOne { outer: dims[0] };
        }
        // At most one token per sequence.
        let rows: usize = if dims[1] == 1 {
            dims[0]
        } else {
            0
        };
        proof {
            assert(rows == dims@[0] * dims@[1]) by (nonlinear_arith)
                requires
                    dims@[1] == 1 ==> rows == dims@[0],
                    dims@[1] == 0 ==> rows == 0,
                    dims@[1] <= 1,
            ;
        }
        return LinearProduct::Flattened { rows, dim: dims[2], batch: dims[0], seq_len: dims[1] };
    }
    LinearProduct::Plain
}

/// A dense layer.
pub struct Linear<T> {
    weight: T,
    bias: Option<T>,
}

impl<T> Linear<T> {
    pub closed spec fn spec_weight(&self) -> T {
        self.weight
    }

    pub closed spec fn spec_bias(&self) -> Option<T> {
        self.bias
    }

    pub fn new(weight: T, bias: Option<T>) -> (r: Self)
        ensures
            r.spec_weight() == weight,
            r.spec_bias() == bias,
    {
        Linear { weight, bias }
    }

    pub fn weight(&self) -> (r: &T)
        ensures
            *r == self.spec_weight(),
    {
        &self.weight
    }

    pub fn bias(&self) -> (r: Option<&T>)
        ensures
            match r {
                Some(b) => self.spec_bias() == Some(*b),
                None => self.spec_bias() is None,
            },
    {
        match &self.bias {
            Some(b) => Some(b),
            None => None,
        }
    }
}

/// The matrix of a quantized layer.
pub enum QMatMul<T> {
    /// Kept unquantized.
    Tensor(T),
    /// Quantized.
    QTensor(T),
}

/// A quantized layer.
pub struct QLinear<T> {
    pub inner: Option<QMatMul<T>>,
    pub bias: Option<T>,
    pub wna16: Option<WNA16<T>>,
    pub dtype: Dtype,
}

/// The quantized element type that a text names; any case.
pub open spec fn named_ggml_dtype(quant: Seq<char>) -> GgmlDType {
    let is = |s: &str| text::same_ignoring_case(quant, s@);
    if is("q40") || is("q4_0") {
        GgmlDType::Q4_0
    } else if is("q4") || is("q41") || is("q4_1") {
        GgmlDType::Q4_1
    } else if is("q50") || is("q5_0") {
        GgmlDType::Q5_0
    } else if is("q5") || is("q51") || is("q5_1") {
        GgmlDType::Q5_1
    } else if is("q8") || is("q80") || is("q8_0") {
        GgmlDType::Q8_0
    } else {
        GgmlDType::Q4K
    }
}

/// The quantized element type that a text names; any case, `Q4K` where it names
/// none.
pub fn ggml_dtype_from_str(quant: &str) -> (r: GgmlDType)
    ensures
        r == named_ggml_dtype(quant@),
{
    if text::eq_ignore_ascii_case(quant, "q40") || text::eq_ignore_ascii_case(quant, "q4_0") {
        GgmlDType::Q4_0
    } else if text::eq_ignore_ascii_case(quant, "q4") || text::eq_ignore_ascii_case(quant, "q41")
        || text::eq_ignore_ascii_case(quant, "q4_1") {
        GgmlDType::Q4_1
    } else if text::eq_ignore_ascii_case(quant, "q50") || text::eq_ignore_ascii_case(quant, "q5_0") {
        GgmlDType::Q5_0
    } else if text::eq_ignore_ascii_case(quant, "q5") || text::eq_ignore_ascii_case(quant, "q51")
        || text::eq_ignore_ascii_case(quant, "q5_1") {
        GgmlDType::Q5_1
    } else if text::eq_ignore_ascii_case(quant, "q8") || text::eq_ignore_ascii_case(quant, "q80")
        || text::eq_ignore_ascii_case(quant, "q8_0") {
        GgmlDType::Q8_0
    } else {
        GgmlDType::Q4K
    }
}

/// The input length that a shard sees: split only along the input dimension.
pub fn local_last_dim(in_dim: usize, shards: Shard) -> (r: usize)
    ensures
        r == if shards.world_size > 1 && shards.dim == 1 {
            in_dim as int / shards.world_size as int
        } else {
            in_dim as int
        },
{
    if shards.world_size > 1 && shards.dim == 1 {
        in_dim / shards.world_size
    } else {
        in_dim
    }
}

/// A layer of any kind.
pub enum LinearX<T> {
    Linear(Linear<T>),
    QLinear(QLinear<T>),
    LnFp8(LnFp8<T>),
    LnMxfp4(LnMxfp4<T>),
    LnNvfp4(LnNvfp4<T>),
}

/// A layer of 8 bit floating weights.
pub struct LnFp8<T> {
    pub weight: T,
    pub weight_scale: T,
    pub weight_scale_cutlass: Option<T>,
    /// Static activation scale, as the bits of a single.
    pub input_scale: Option<u32>,
    pub bias: Option<T>,
    pub weight_block_size: Vec<usize>,
    pub sm_version: usize,
    pub ue8m0: bool,
}

/// A layer of MXFP4 weights.
pub struct LnMxfp4<T> {
    pub weight: T,
    pub bias: Option<T>,
}

/// A layer of NVFP4 weights.
pub struct LnNvfp4<T> {
    pub weight: T,
    pub bias: Option<T>,
}

/// What a layer of another kind cannot do.
#[derive(Debug, Clone, Copy, PartialEq, Eq, Structural)]
pub enum LinearError {
    /// A quantized layer without a quantized matrix.
    InvalidQuantization,
    /// A quantized layer that does not hold 4 bit weights.
    PrequantWithoutWna16,
    /// A layer that is not quantized to 4 bit weights.
    PrequantOtherKind,
    /// The dense weight of a quantized layer.
    DenseOfQuantized,
    /// The refusal of the 4 bit layer.
    Prequant(PrequantError),
}

/// Which product a quantized layer makes.
#[derive(Debug, Clone, Copy, PartialEq, Eq, Structural)]
pub enum QProduct {
    Wna16,
    QMatMul,
}

impl<T> QLinear<T> {
    /// Which product a forward pass makes: the 4 bit kernel goes before the
    /// quantized matrix.
    pub fn product(&self) -> (r: Result<QProduct, LinearError>)
        ensures
            r == if self.wna16 is Some {
                Ok::<QProduct, LinearError>(QProduct::Wna16)
            } else if self.inner is Some {
                Ok::<QProduct, LinearError>(QProduct::QMatMul)
            } else {
                Err::<QProduct, LinearError>(LinearError::InvalidQuantization)
            },
    {
        if self.wna16.is_some() {
            Ok(QProduct::Wna16)
        } else if self.inner.is_some() {
            Ok(QProduct::QMatMul)
        } else {
            Err(LinearError::InvalidQuantization)
        }
    }

    /// Whether an indexed product over experts can be made.
    pub fn indexed_moe_product(&self) -> (r: Result<(), LinearError>)
        ensures
            r == if self.inner is Some {
                Ok::<(), LinearError>(())
            } else {
                Err::<(), LinearError>(LinearError::InvalidQuantization)
            },
    {
        if self.inner.is_some() {
            Ok(())
        } else {
            Err(LinearError::InvalidQuantization)
        }
    }
}

impl<T> LinearX<T> {
    /// The 4 bit weights of a quantized layer.
    pub open spec fn wna16(&self) -> Option<WNA16<T>> {
        match self {
            LinearX::QLinear(q) => q.wna16,
            _ => None,
        }
    }

    /// Whether the layer multiplies 4 bit weights with 8 bit activations.
    pub fn w4a8_active(&self) -> (r: bool)
        ensures
            r == match self.wna16() {
                Some(w) => w.spec_is_w4a8(),
                None => false,
            },
    {
        match self {
            LinearX::QLinear(q) => match &q.wna16 {
                Some(w) => w.is_w4a8(),
                None => false,
            },
            _ => false,
        }
    }

    /// Whether the layer takes an input of this rank that is already quantized.
    pub fn check_prequant(&self, rank: usize) -> (r: Result<(), LinearError>)
        requires
            self.wna16() matches Some(w) ==> (w.spec_is_w4a8() && rank == 2 ==> w.scales is Some),
        ensures
            match self {
                LinearX::QLinear(q) => match q.wna16 {
                    Some(w) => r == match w.spec_prequant(rank) {
                        Ok(_) => Ok::<(), LinearError>(()),
                        Err(e) => Err::<(), LinearError>(LinearError::Prequant(e)),
                    },
                    None => r == Err::<(), LinearError>(LinearError::PrequantWithoutWna16),
                },
                _ => r == Err::<(), LinearError>(LinearError::PrequantOtherKind),
            },
    {
        match self {
            LinearX::QLinear(q) => match &q.wna16 {
                Some(w) => match w.check_prequant(rank) {
                    Ok(_) => Ok(()),
                    Err(e) => Err(LinearError::Prequant(e)),
                },
                None => Err(LinearError::PrequantWithoutWna16),
            },
            _ => Err(LinearError::PrequantOtherKind),
        }
    }

    /// The types between which the input and the output of a dense layer are
    /// converted: to the weight's type and back, where the input has another one.
    pub fn dense_conversion(&self, weight_dtype: Dtype, input_dtype: Dtype) -> (r: Option<
        (Dtype, Dtype),
    >)
        ensures
            r == if *self is Linear && weight_dtype != input_dtype {
                Some((weight_dtype, input_dtype))
            } else {
                None
            },
    {
        match self {
            LinearX::Linear(_) => {
                if weight_dtype != input_dtype {
                    Some((weight_dtype, input_dtype))
                } else {
                    None
                }
            },
            _ => None,
        }
    }

    /// Weight and scale of an 8 bit floating layer.
    pub fn fp8_weight_scale(&self) -> (r: Option<(&T, &T)>)
        ensures
            match self {
                LinearX::LnFp8(ln) => r == Some((&ln.weight, &ln.weight_scale)),
                _ => r is None,
            },
    {
        match self {
            LinearX::LnFp8(ln) => Some((&ln.weight, &ln.weight_scale)),
            _ => None,
        }
    }

    /// The NVFP4 layer inside.
    pub fn as_nvfp4(&self) -> (r: Option<&LnNvfp4<T>>)
        ensures
            match self {
                LinearX::LnNvfp4(ln) => r == Some(ln),
                _ => r is None,
            },
    {
        match self {
            LinearX::LnNvfp4(ln) => Some(ln),
            _ => None,
        }
    }

    /// The weight of a dense layer.
    pub fn dense_weight(&self) -> (r: Result<&T, LinearError>)
        ensures
            match self {
                LinearX::Linear(ln) => r matches Ok(w) && *w == ln.spec_weight(),
                _ => r matches Err(LinearError::DenseOfQuantized),
            },
    {
        match self {
            LinearX::Linear(ln) => Ok(ln.weight()),
            _ => Err(LinearError::DenseOfQuantized),
        }
    }
}

/// Whether the directory lists the scales of FP4 weights.
pub fn has_fp4_scale_tensors(vb: &VarBuilderX, is_mlx_nvfp4: bool) -> (r: bool)
    ensures
        r == if is_mlx_nvfp4 {
            vb.lists("weight"@) && vb.lists("scales"@)
        } else {
            vb.lists("weight_scale"@) || vb.lists("weight_scale_2"@) || vb.lists(
                "weight_global_scale"@,
            ) || vb.lists("weight_packed"@) || vb.lists("blocks"@)
        },
{
    if is_mlx_nvfp4 {
        vb.contains_tensor("weight") && vb.contains_tensor("scales")
    } else {
        vb.contains_tensor("weight_scale") || vb.contains_tensor("weight_scale_2")
            || vb.contains_tensor("weight_global_scale") || vb.contains_tensor("weight_packed")
            || vb.contains_tensor("blocks")
    }
}

/// Whether the directory lists the scales of FP8 weights.
pub fn has_fp8_tensors(vb: &VarBuilderX) -> (r: bool)
    ensures
        r == (vb.lists("weight_scale"@) || vb.lists("weight_scale_inv"@) || vb.lists("scale"@)),
{
    vb.contains_tensor("weight_scale") || vb.contains_tensor("weight_scale_inv")
        || vb.contains_tensor("scale")
}

/// How a layer of any kind is loaded. Quantized loading is open for modules only
/// that the quantization skips, and closed for quantized single files.
pub fn linear_x(
    in_dim: usize,
    out_dim: usize,
    vbx: &VarBuilderX,
    shards: Shard,
    quant_method: Option<&str>,
    skip_module: bool,
    dtype: Dtype,
) -> (r: LinearPlan)
    requires
        !vbx.is_gguf,
        quant_method matches Some(m) ==> m@.len() == 0 || skip_module,
    ensures
        r.is_plain(in_dim, out_dim, shards, dtype, false),
{
    linear_no_bias(in_dim, out_dim, shards, dtype)
}

/// A layer of any kind without bias.
pub fn linear_no_bias_x(
    in_dim: usize,
    out_dim: usize,
    vbx: &VarBuilderX,
    shards: Shard,
    quant_method: Option<&str>,
    skip_module: bool,
    dtype: Dtype,
) -> (r: LinearPlan)
    requires
        !vbx.is_gguf,
        quant_method matches Some(m) ==> m@.len() == 0 || skip_module,
    ensures
        r.is_plain(in_dim, out_dim, shards, dtype, false),
{
    linear_x(in_dim, out_dim, vbx, shards, quant_method, skip_module, dtype)
}

/// A layer of any kind. The dense loader takes no bias, asked for or not.
pub fn linear_b_x(
    in_dim: usize,
    out_dim: usize,
    bias: bool,
    vbx: &VarBuilderX,
    shards: Shard,
    quant_method: Option<&str>,
    skip_module: bool,
    dtype: Dtype,
) -> (r: LinearPlan)
    requires
        !vbx.is_gguf,
        quant_method matches Some(m) ==> m@.len() == 0 || skip_module,
    ensures
        r.is_plain(in_dim, out_dim, shards, dtype, false),
{
    if bias {
        linear_x(in_dim, out_dim, vbx, shards, quant_method, skip_module, dtype)
    } else {
        linear_no_bias_x(in_dim, out_dim, vbx, shards, quant_method, skip_module, dtype)
    }
}

/// The merged weights of all experts; closed for quantized single files.
pub fn linear_no_bias_merged_x(
    num_experts: usize,
    in_dim: usize,
    out_dim: usize,
    vbx: &VarBuilderX,
    shards: Shard,
    dtype: Dtype,
) -> (r: LinearPlan)
    requires
        !vbx.is_gguf,
        shards.dim < usize::MAX,
    ensures
        r.weight.name@ == "weight"@,
        r.weight.shape@ == seq![num_experts, out_dim, in_dim],
        r.weight.shard == (Shard {
            dim: (shards.dim + 1) as usize,
            rank: shards.rank,
            world_size: shards.world_size,
        }),
        r.dtype == dtype,
        r.bias is None,
{
    linear_no_bias_merged(num_experts, in_dim, out_dim, shards, dtype)
}

/// Two nested settings, undone in the opposite order, end in the mode before both.
pub proof fn law_guards_nest(mode: LinearMode, outer: bool, inner: bool)
    ensures
        ({
            let g1 = mode.guard();
            let m1 = mode.after_set(outer);
            let g2 = m1.guard();
            let m2 = m1.after_set(inner);
            m2.after_restore(g2) == m1 && m2.after_restore(g2).after_restore(g1) == mode
        }),
{
}

} // verus!
