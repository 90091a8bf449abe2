//! Layers of 4 bit weights with 16 bit or 8 bit activations.

use crate::dtype::Dtype;
use vstd::prelude::*;

verus! {

/// The weights of a 4 bit layer. `T` is the tensor handle of the device.
pub struct WNA16<T> {
    pub weight: T,
    pub bias: Option<T>,
    pub scales: Option<T>,
    pub qzeros: Option<T>,
    pub g_idx: Option<T>,
    pub workspace: Option<T>,
    pub group_size: i32,
    pub bits: i32,
    pub dtype: Dtype,
    pub is_awq: bool,
    /// Whether activations are quantized to 8 bits.
    pub a8: bool,
    /// Global activation factor, as the bits of a single.
    pub a_global: u32,
    /// Packed zero points of asymmetric weights.
    pub awq_z: Option<T>,
}

/// Why an already quantized input is refused.
#[derive(Debug, Clone, Copy, PartialEq, Eq, Structural)]
pub enum PrequantError {
    /// The layer does not quantize activations.
    NotW4A8,
    /// The input is not two dimensional.
    NotTwoDimensional,
}

/// Which kernel a forward pass takes.
#[derive(Debug, Clone, Copy, PartialEq, Eq, Structural)]
pub enum Wna16Kernel {
    /// With zero points: in halves, converted back to the type of the layer.
    Awq { compute: Dtype, back_to: Dtype },
    /// Without zero points.
    W4A16,
}

/// A chunk that does not divide evenly.
#[derive(Debug, Clone, Copy, PartialEq, Eq, Structural)]
pub struct ChunkError {
    pub chunk_len: usize,
    pub world: usize,
    pub in_dim: usize,
    pub group_size: usize,
}

impl<T> WNA16<T> {
    pub open spec fn spec_is_w4a8(&self) -> bool {
        self.a8
    }

    /// The answer of [`WNA16::check_prequant`].
    pub open spec fn spec_prequant(&self, rank: usize) -> Result<(), PrequantError> {
        if !self.a8 {
            Err(PrequantError::NotW4A8)
        } else if rank != 2 {
            Err(PrequantError::NotTwoDimensional)
        } else {
            Ok(())
        }
    }

    /// Whether activations are quantized to 8 bits.
    pub fn is_w4a8(&self) -> (r: bool)
        ensures
            r == self.spec_is_w4a8(),
    {
        self.a8
    }

    /// Whether an input of this rank that is already quantized can be taken.
    pub fn check_prequant(&self, rank: usize) -> (r: Result<(), PrequantError>)
        requires
            self.spec_is_w4a8() && rank == 2 ==> self.scales is Some,
        ensures
            r == self.spec_prequant(rank),
    {
        if !self.a8 {
            Err(PrequantError::NotW4A8)
        } else if rank != 2 {
            Err(PrequantError::NotTwoDimensional)
        } else {
            Ok(())
        }
    }

    /// Which kernel a forward pass takes.
    pub fn kernel(&self) -> (r: Wna16Kernel)
        ensures
            r == if self.awq_z is Some {
                Wna16Kernel::Awq { compute: Dtype::F16, back_to: self.dtype }
            } else {
                Wna16Kernel::W4A16
            },
    {
        if self.awq_z.is_some() {
            Wna16Kernel::Awq { compute: Dtype::F16, back_to: self.dtype }
        } else {
            Wna16Kernel::W4A16
        }
    }
}

/// Whether a chunk of merged asymmetric weights divides over the ranks, the
/// groups and the packed words.
pub fn check_ct_awq_merged_chunk(
    in_dim: usize,
    out_full: usize,
    chunk_len: usize,
    world: usize,
    group_size: usize,
) -> (r: Result<(), ChunkError>)
    requires
        world > 0,
        group_size > 0,
    ensures
        r == if chunk_len as int % world as int == 0 && in_dim as int % group_size as int == 0
            && out_full % 8 == 0 {
            Ok::<(), ChunkError>(())
        } else {
            Err::<(), ChunkError>(ChunkError { chunk_len, world, in_dim, group_size })
        },
{
    if chunk_len % world != 0 || in_dim % group_size != 0 || out_full % 8 != 0 {
        Err(ChunkError { chunk_len, world, in_dim, group_size })
    } else {
        Ok(())
    }
}

} // verus!
