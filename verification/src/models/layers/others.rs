//! Norms, embeddings, convolutions and pooling.

use super::deltanet::{self, convert_to};
use super::linear::Slice;
use super::shape;
use super::tensor::{Conv2dConfig, Shard};
use super::var_builder::VarBuilderX;
use crate::dtype::Dtype;
use vstd::prelude::*;

verus! {

/// What a norm divides by.
#[derive(Debug, Clone, Copy, PartialEq, Eq, Structural)]
pub enum NormKind {
    /// The root of the mean square.
    Rms,
    /// The standard deviation, after the mean was taken off.
    Layer,
}

/// A norm: how it is loaded and in which type it computes.
#[derive(Debug, Clone, Copy, PartialEq, Eq, Structural)]
pub struct NormX {
    pub kind: NormKind,
    pub size: usize,
    /// What is added below the root, as the bits of a double.
    pub eps: u64,
    pub shard: Shard,
    /// The weight is dequantized to singles.
    pub dequantize: bool,
    /// The type in which the norm computes.
    pub dtype: Dtype,
    /// One is added to the weight.
    pub add_one: bool,
    /// A single precision copy of the weight is kept for the fixed order kernel.
    pub v4: bool,
    pub bias: bool,
}

/// The part of a weight that is not split.
pub open spec fn unsplit() -> Shard {
    Shard { dim: 0, rank: 0, world_size: 0 }
}

/// A norm as it is loaded: a quantized single file is read whole and computed in
/// singles.
pub open spec fn loaded_norm(is_gguf: bool, n: NormX) -> NormX {
    NormX {
        shard: if is_gguf {
            unsplit()
        } else {
            n.shard
        },
        dequantize: is_gguf,
        dtype: if is_gguf {
            Dtype::F32
        } else {
            n.dtype
        },
        ..n
    }
}

/// A root mean square norm.
pub open spec fn rms_plan(
    is_gguf: bool,
    size: usize,
    eps: u64,
    dtype: Dtype,
    shard: Shard,
    add_one: bool,
) -> NormX {
    loaded_norm(
        is_gguf,
        NormX {
            kind: NormKind::Rms,
            size,
            eps,
            shard,
            dequantize: false,
            dtype,
            add_one,
            v4: false,
            bias: false,
        },
    )
}

/// A root mean square norm with a fixed order of summation.
pub open spec fn v4_norm_plan(
    is_gguf: bool,
    size: usize,
    eps: u64,
    dtype: Dtype,
    shard: Shard,
) -> NormX {
    NormX { v4: true, ..rms_plan(is_gguf, size, eps, dtype, shard, false) }
}

/// A layer norm, with a bias where it is affine.
pub open spec fn layer_plan(
    is_gguf: bool,
    size: usize,
    eps: u64,
    dtype: Dtype,
    affine: bool,
) -> NormX {
    NormX {
        kind: NormKind::Layer,
        bias: affine,
        ..rms_plan(is_gguf, size, eps, dtype, unsplit(), false)
    }
}

fn load_norm(is_gguf: bool, n: NormX) -> (r: NormX)
    ensures
        r == loaded_norm(is_gguf, n),
{
    if is_gguf {
        NormX {
            shard: Shard { dim: 0, rank: 0, world_size: 0 },
            dequantize: true,
            dtype: Dtype::F32,
            ..n
        }
    } else {
        NormX { dequantize: false, ..n }
    }
}

/// A root mean square norm.
pub fn rms_norm(size: usize, eps: u64, vb: &VarBuilderX, dtype: Dtype, is_gemma: bool) -> (r: NormX)
    ensures
        r == rms_plan(vb.is_gguf, size, eps, dtype, unsplit(), is_gemma),
{
    rms_norm_sharded(size, eps, vb, dtype, is_gemma, Shard { dim: 0, rank: 0, world_size: 0 })
}

/// A root mean square norm over a part of the channels.
pub fn rms_norm_sharded(
    size: usize,
    eps: u64,
    vb: &VarBuilderX,
    dtype: Dtype,
    is_gemma: bool,
    shard: Shard,
) -> (r: NormX)
    ensures
        r == rms_plan(vb.is_gguf, size, eps, dtype, shard, is_gemma),
{
    load_norm(
        vb.is_gguf,
        NormX {
            kind: NormKind::Rms,
            size,
            eps,
            shard,
            dequantize: false,
            dtype,
            add_one: is_gemma,
            v4: false,
            bias: false,
        },
    )
}

/// A root mean square norm with a fixed order of summation.
pub fn rms_norm_v4(size: usize, eps: u64, vb: &VarBuilderX, dtype: Dtype) -> (r: NormX)
    ensures
        r == v4_norm_plan(vb.is_gguf, size, eps, dtype, unsplit()),
{
    rms_norm_v4_sharded(size, eps, vb, dtype, Shard { dim: 0, rank: 0, world_size: 0 })
}

/// A root mean square norm with a fixed order of summation, over a part of the
/// channels.
pub fn rms_norm_v4_sharded(
    size: usize,
    eps: u64,
    vb: &VarBuilderX,
    dtype: Dtype,
    shard: Shard,
) -> (r: NormX)
    ensures
        r == v4_norm_plan(vb.is_gguf, size, eps, dtype, shard),
{
    load_norm(
        vb.is_gguf,
        NormX {
            kind: NormKind::Rms,
            size,
            eps,
            shard,
            dequantize: false,
            dtype,
            add_one: false,
            v4: true,
            bias: false,
        },
    )
}

/// A layer norm, with a bias where it is affine.
pub fn layer_norm(size: usize, eps: u64, affine: bool, vb: &VarBuilderX, dtype: Dtype) -> (r: NormX)
    ensures
        r == layer_plan(vb.is_gguf, size, eps, dtype, affine),
{
    load_norm(
        vb.is_gguf,
        NormX {
            kind: NormKind::Layer,
            size,
            eps,
            shard: Shard { dim: 0, rank: 0, world_size: 0 },
            dequantize: false,
            dtype,
            add_one: false,
            v4: false,
            bias: affine,
        },
    )
}

/// How a norm is applied.
#[derive(Debug, Clone, Copy, PartialEq, Eq, Structural)]
pub enum NormPath {
    /// By the fixed order kernel.
    V4,
    /// After a conversion, which is undone.
    Converted { to: Dtype, back: Dtype },
    Plain,
}

impl NormX {
    /// How the norm is applied to an input of type `input`.
    pub fn path(&self, input: Dtype) -> (r: NormPath)
        ensures
            r == if self.v4 {
                NormPath::V4
            } else if input != self.dtype {
                NormPath::Converted { to: self.dtype, back: input }
            } else {
                NormPath::Plain
            },
    {
        if self.v4 {
            NormPath::V4
        } else if input != self.dtype {
            NormPath::Converted { to: self.dtype, back: input }
        } else {
            NormPath::Plain
        }
    }

    /// The row length for the fixed order kernel in place.
    pub fn forward_v4_inplace(&self, dims: &[usize]) -> (r: Result<usize, V4Error>)
        ensures
            r == if !self.v4 {
                Err::<usize, V4Error>(V4Error::NoWeight)
            } else if dims@.len() == 0 {
                Err::<usize, V4Error>(V4Error::EmptyDims)
            } else {
                Ok::<usize, V4Error>(dims@.last())
            },
    {
        if !self.v4 {
            return Err(V4Error::NoWeight);
        }
        if dims.len() == 0 {
            return Err(V4Error::EmptyDims);
        }
        Ok(dims[dims.len() - 1])
    }
}

/// How the fixed order kernel is applied.
#[derive(Debug, Clone, Copy, PartialEq, Eq, Structural)]
pub struct V4Plan {
    pub rows: usize,
    pub dim: usize,
    /// The input is already `(rows, dim)` in bf16: one kernel, no conversion.
    pub fast: bool,
    /// Otherwise: the conversion before, whether the shape is put back, and the
    /// conversion after.
    pub convert: Option<Dtype>,
    pub restore_shape: bool,
    pub convert_back: Option<Dtype>,
}

/// What the fixed order kernel refuses.
#[derive(Debug, Clone, Copy, PartialEq, Eq, Structural)]
pub enum V4Error {
    /// A norm that keeps no single precision weight.
    NoWeight,
    /// A tensor without dimensions.
    EmptyDims,
}

/// All dimensions but the last multiplied; at least one.
pub open spec fn row_count(dims: Seq<usize>) -> int {
    if dims.len() <= 1 {
        1
    } else if shape::elem_count(dims.drop_last()) < 1 {
        1
    } else {
        shape::elem_count(dims.drop_last())
    }
}

/// The answer of [`plan_v4`].
pub open spec fn v4_answer(dims: Seq<usize>, dtype: Dtype) -> Result<V4Plan, V4Error> {
    if dims.len() == 0 {
        Err(V4Error::EmptyDims)
    } else {
        let rows = row_count(dims);
        let is_matrix = dims.len() == 2 && dims[0] == rows;
        Ok(
            V4Plan {
                rows: rows as usize,
                dim: dims.last(),
                fast: dtype == Dtype::BF16 && is_matrix,
                convert: deltanet::conversion(dtype, Dtype::BF16),
                restore_shape: !is_matrix,
                convert_back: deltanet::conversion(Dtype::BF16, dtype),
            },
        )
    }
}

/// How the fixed order kernel is applied to an input of these dimensions.
pub fn plan_v4(dims: &[usize], dtype: Dtype) -> (r: Result<V4Plan, V4Error>)
    requires
        forall|i: int|
            0 <= i < dims@.len() ==> shape::elem_count(#[trigger] dims@.take(i)) <= usize::MAX,
    ensures
        r == v4_answer(dims@, dtype),
{
    let n: usize = dims.len();
    if n == 0 {
        return Err(V4Error::EmptyDims);
    }
    let dim: usize = dims[n - 1];
    let rows: usize = if n <= 1 {
        1
    } else {
        let outer: &[usize] = vstd::slice::slice_subrange(dims, 0, n - 1);
        proof {
            assert(outer@ =~= dims@.drop_last());
            assert forall|i: int| 0 <= i <= outer@.len() implies shape::elem_count(
                #[trigger] outer@.take(i),
            ) <= usize::MAX by {
                assert(outer@.take(i) =~= dims@.take(i));
            }
        }
        let p: usize = shape::product(outer);
        if p < 1 {
            1
        } else {
            p
        }
    };
    let is_matrix: bool = n == 2 && dims[0] == rows;
    Ok(
        V4Plan {
            rows,
            dim,
            fast: dtype == Dtype::BF16 && is_matrix,
            convert: convert_to(dtype, Dtype::BF16),
            restore_shape: !is_matrix,
            convert_back: convert_to(Dtype::BF16, dtype),
        },
    )
}

/// How an embedding is loaded.
#[derive(Debug, Clone, Copy, PartialEq, Eq, Structural)]
pub enum EmbeddingPlan {
    /// 4 bit weights with scales, dequantized at once: eight weights per word, 16
    /// weights per scale.
    MlxNvfp4 {
        vocab: usize,
        weight_cols: usize,
        scale_cols: usize,
        out_dtype: Dtype,
    },
    /// Converted to the type of the model.
    Dense { vocab: usize, hidden: usize, dtype: Dtype },
    /// From a quantized single file, with a known vocabulary.
    Sized { vocab: usize, hidden: usize },
    /// From a quantized single file: the vocabulary is the listed first dimension.
    Listed,
}

/// How an embedding is loaded, by whether it has scales beside it.
pub open spec fn embedding_plan(
    is_gguf: bool,
    has_scales: bool,
    vocab_size: Option<usize>,
    hidden_size: usize,
    dtype: Dtype,
) -> EmbeddingPlan {
    match vocab_size {
        Some(vs) => if is_gguf {
            EmbeddingPlan::Sized { vocab: vs, hidden: hidden_size }
        } else if has_scales {
            EmbeddingPlan::MlxNvfp4 {
                vocab: vs,
                weight_cols: hidden_size / 8,
                scale_cols: hidden_size / 16,
                out_dtype: if dtype == Dtype::F16 || dtype == Dtype::BF16 {
                    dtype
                } else {
                    Dtype::BF16
                },
            }
        } else {
            EmbeddingPlan::Dense { vocab: vs, hidden: hidden_size, dtype }
        },
        None => EmbeddingPlan::Listed,
    }
}

/// How an embedding is loaded. A checkpoint does not list its vocabulary.
pub fn embedding(vocab_size: Option<usize>, hidden_size: usize, vb: &VarBuilderX, dtype: Dtype) -> (r:
    EmbeddingPlan)
    requires
        !vb.is_gguf ==> vocab_size is Some,
    ensures
        r == embedding_plan(vb.is_gguf, vb.lists("scales"@), vocab_size, hidden_size, dtype),
{
    match vocab_size {
        Some(vs) => {
            if vb.is_gguf() {
                EmbeddingPlan::Sized { vocab: vs, hidden: hidden_size }
            } else if vb.contains_tensor("scales") {
                EmbeddingPlan::MlxNvfp4 {
                    vocab: vs,
                    weight_cols: hidden_size / 8,
                    scale_cols: hidden_size / 16,
                    out_dtype: if dtype == Dtype::F16 || dtype == Dtype::BF16 {
                        dtype
                    } else {
                        Dtype::BF16
                    },
                }
            } else {
                EmbeddingPlan::Dense { vocab: vs, hidden: hidden_size, dtype }
            }
        },
        None => EmbeddingPlan::Listed,
    }
}

/// The vocabulary of an embedding: as given, or the first dimension of the weight.
pub fn embedding_vocab(vocab_size: Option<usize>, weight_shape: &[usize]) -> (r: usize)
    ensures
        r == match vocab_size {
            Some(vs) => vs,
            None => if weight_shape@.len() > 0 {
                weight_shape@[0]
            } else {
                0
            },
        },
{
    match vocab_size {
        Some(vs) => vs,
        None => {
            if weight_shape.len() > 0 {
                weight_shape[0]
            } else {
                0
            }
        },
    }
}

/// The row length of an embedding: the last dimension of the weight.
pub fn embedding_dim(weight_shape: &[usize]) -> (r: usize)
    ensures
        r == if weight_shape@.len() > 0 {
            weight_shape@.last()
        } else {
            0
        },
{
    if weight_shape.len() > 0 {
        weight_shape[weight_shape.len() - 1]
    } else {
        0
    }
}

/// A convolution as it is applied.
#[derive(Debug, Clone, Copy, PartialEq, Eq, Structural)]
pub struct Conv {
    pub kernel: usize,
    pub stride: usize,
    pub groups: usize,
    pub padding: usize,
    pub dilation: usize,
    pub with_bias: bool,
}

impl Conv {
    /// The convolution of a weight: its kernel is the last dimension.
    pub fn new(weight_shape: &[usize], with_bias: bool) -> (r: Self)
        ensures
            r == (Conv {
                kernel: if weight_shape@.len() > 0 {
                    weight_shape@.last()
                } else {
                    1
                },
                stride: 1,
                groups: 1,
                padding: 0,
                dilation: 1,
                with_bias,
            }),
    {
        let kernel: usize = if weight_shape.len() > 0 {
            weight_shape[weight_shape.len() - 1]
        } else {
            1
        };
        Conv { kernel, stride: 1, groups: 1, padding: 0, dilation: 1, with_bias }
    }
}

/// The weight shape of a two dimensional convolution, and the length of its bias.
pub fn conv2d(
    in_channels: usize,
    out_channels: usize,
    kernel_size: usize,
    cfg: Conv2dConfig,
    vb: &VarBuilderX,
    bias: bool,
) -> (r: (Vec<usize>, Option<usize>))
    requires
        cfg.groups > 0,
        !vb.is_gguf,
    ensures
        r.0@ == seq![
            out_channels,
            (in_channels as int / cfg.groups as int) as usize,
            kernel_size,
            kernel_size,
        ],
        r.1 == if bias {
            Some(out_channels)
        } else {
            None
        },
{
    let mut v: Vec<usize> = Vec::new();
    v.push(out_channels);
    v.push(in_channels / cfg.groups);
    v.push(kernel_size);
    v.push(kernel_size);
    (
        v,
        if bias {
            Some(out_channels)
        } else {
            None
        },
    )
}

/// Settings of an average pooling.
#[derive(Debug, Clone, Copy, PartialEq, Eq, Structural)]
pub struct AvgPool2d {
    pub kernel_size: usize,
    pub stride: usize,
}

impl AvgPool2d {
    pub fn new(kernel_size: usize, stride: usize) -> (r: Self)
        ensures
            r == (AvgPool2d { kernel_size, stride }),
    {
        AvgPool2d { kernel_size, stride }
    }
}

/// Settings of a three dimensional convolution.
#[derive(Debug, Clone, Copy, PartialEq, Eq, Structural)]
pub struct Conv3dConfig {
    pub padding: usize,
    pub stride: usize,
    pub dilation: usize,
    pub groups: usize,
}

impl Default for Conv3dConfig {
    fn default() -> (r: Self)
        ensures
            r == (Conv3dConfig { padding: 0, stride: 1, dilation: 1, groups: 1 }),
    {
        Conv3dConfig { padding: 0, stride: 1, dilation: 1, groups: 1 }
    }
}

/// How a three dimensional convolution over two frames becomes two flat ones.
pub struct Conv3dNoBias {
    /// `(out, in, time, height, width)`.
    pub shape: Vec<usize>,
    /// `(out, time, height, width, in)`, taken where the first shape is not listed.
    pub fallback_shape: Vec<usize>,
    /// The order of dimensions that brings the second shape to the first.
    pub fallback_permute: Vec<usize>,
    /// The frames, along dimension 2.
    pub frames: (Slice, Slice),
    pub flat: Conv2dConfig,
}

impl Conv3dNoBias {
    /// The weight of a three dimensional convolution.
    pub fn new(
        in_channels: usize,
        out_channels: usize,
        kernel_sizes: [usize; 3],
        cfg: Conv3dConfig,
        vb: &VarBuilderX,
    ) -> (r: Self)
        requires
            cfg.groups > 0,
            !vb.is_gguf,
        ensures
            ({
                let c = (in_channels as int / cfg.groups as int) as usize;
                let k = kernel_sizes@;
                &&& r.shape@ == seq![out_channels, c, k[0], k[1], k[2]]
                &&& r.fallback_shape@ == seq![out_channels, k[0], k[1], k[2], c]
                &&& r.fallback_permute@ == seq![0usize, 4, 1, 2, 3]
                &&& r.frames == (Slice { start: 0, len: 1 }, Slice { start: 1, len: 1 })
                &&& r.flat == (Conv2dConfig {
                    padding: cfg.padding,
                    stride: cfg.stride,
                    dilation: cfg.dilation,
                    groups: cfg.groups,
                })
            }),
    {
        let c: usize = in_channels / cfg.groups;
        let mut shape: Vec<usize> = Vec::new();
        shape.push(out_channels);
        shape.push(c);
        shape.push(kernel_sizes[0]);
        shape.push(kernel_sizes[1]);
        shape.push(kernel_sizes[2]);
        let mut fallback_shape: Vec<usize> = Vec::new();
        fallback_shape.push(out_channels);
        fallback_shape.push(kernel_sizes[0]);
        fallback_shape.push(kernel_sizes[1]);
        fallback_shape.push(kernel_sizes[2]);
        fallback_shape.push(c);
        let mut fallback_permute: Vec<usize> = Vec::new();
        fallback_permute.push(0);
        fallback_permute.push(4);
        fallback_permute.push(1);
        fallback_permute.push(2);
        fallback_permute.push(3);
        Conv3dNoBias {
            shape,
            fallback_shape,
            fallback_permute,
            frames: (Slice { start: 0, len: 1 }, Slice { start: 1, len: 1 }),
            flat: Conv2dConfig {
                padding: cfg.padding,
                stride: cfg.stride,
                dilation: cfg.dilation,
                groups: cfg.groups,
            },
        }
    }
}

/// Permuting the fallback shape by its order gives the first shape.
pub proof fn law_conv3d_fallback_permutes_back(o: usize, c: usize, k: Seq<usize>)
    requires
        k.len() == 3,
    ensures
        ({
            let fallback = seq![o, k[0], k[1], k[2], c];
            let order = seq![0usize, 4, 1, 2, 3];
            Seq::new(5, |i: int| fallback[order[i] as int]) == seq![o, c, k[0], k[1], k[2]]
        }),
{
    let fallback = seq![o, k[0], k[1], k[2], c];
    let order = seq![0usize, 4, 1, 2, 3];
    assert(Seq::new(5, |i: int| fallback[order[i] as int]) =~= seq![o, c, k[0], k[1], k[2]]);
}

} // verus!
