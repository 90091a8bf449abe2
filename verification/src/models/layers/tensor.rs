//! The plain vocabulary of tensors: dimensions, shards, quantized element types.

use vstd::prelude::*;

verus! {

/// A dimension counted from the innermost one.
#[derive(Debug, Clone, Copy, PartialEq, Eq, Structural)]
pub enum D {
    Minus1,
    Minus2,
    Minus3,
}

/// What can name a dimension.
pub trait Dim: Copy + Sized {

}

impl Dim for usize {

}

impl Dim for D {

}

/// One part of a tensor that is split along `dim` over `world_size` ranks.
#[derive(Debug, Clone, Copy, PartialEq, Eq, Structural)]
pub struct Shard {
    pub dim: usize,
    pub rank: usize,
    pub world_size: usize,
}

impl Default for Shard {
    fn default() -> (r: Self)
        ensures
            r == (Shard { dim: 0, rank: 0, world_size: 0 }),
    {
        Shard { dim: 0, rank: 0, world_size: 0 }
    }
}

/// Settings of a two dimensional convolution.
#[derive(Debug, Clone, Copy, PartialEq, Eq, Structural)]
pub struct Conv2dConfig {
    pub padding: usize,
    pub stride: usize,
    pub dilation: usize,
    pub groups: usize,
}

impl Default for Conv2dConfig {
    fn default() -> (r: Self)
        ensures
            r == (Conv2dConfig { padding: 0, stride: 0, dilation: 0, groups: 0 }),
    {
        Conv2dConfig { padding: 0, stride: 0, dilation: 0, groups: 0 }
    }
}

/// Element types of weight files.
#[allow(non_camel_case_types)]
#[derive(Debug, Clone, Copy, PartialEq, Eq, Structural)]
pub enum GgmlDType {
    F32,
    F16,
    Q4_0,
    Q4_1,
    Q5_0,
    Q5_1,
    Q8_0,
    IQ1_S,
    IQ1_M,
    IQ2_XXS,
    IQ2_XS,
    IQ3_XXS,
    IQ3_S,
    IQ4_XS,
    IQ4_NL,
    Q2K,
    Q3K,
    Q4K,
    Q5K,
    Q6K,
}

impl Default for GgmlDType {
    fn default() -> (r: Self)
        ensures
            r == GgmlDType::F32,
    {
        GgmlDType::F32
    }
}

/// A weight decoded on the host, as little endian singles.
pub struct HostTensorBoxed {
    pub shape: Vec<usize>,
    pub data: Vec<u8>,
}

/// Shape and strides of a tensor.
#[derive(Debug)]
pub struct Layout {
    pub shape: Vec<usize>,
    pub strides: Vec<usize>,
}

/// Marks a quantized tensor.
pub struct QTensor;

/// Marks storage on the card.
pub struct CudaStorage;

/// Marks storage on the host.
pub struct CpuStorage;

/// Where a tensor is stored.
pub enum Storage {
    Cpu(CpuStorage),
    Cuda(CudaStorage),
}

/// Marks the state tables of linear attention.
pub struct MambaCache;

/// Marks the sorting kernel.
pub struct ArgSortOp;

/// An operation on one tensor.
pub trait CustomOp1 {

}

/// What rows can be picked from.
pub trait IndexOp {

}

/// The quantized matrix kernels take no IQ element type.
pub fn is_iq_gguf_dtype() -> (r: bool)
    ensures
        !r,
{
    false
}

} // verus!
