//! Kernel descriptions and the host side layouts that they read.

pub mod cublas;
pub mod cuda_ops;
pub mod marlin;

use vstd::prelude::*;

verus! {

/// The architectures that kernels are built for. Callers ask for what an
/// architecture has and never name one themselves.
#[derive(Debug, Clone, Copy, PartialEq, Eq, Hash, Structural)]
pub enum Arch {
    Sm86,
    Sm89,
}

/// A kernel that can be captured into a graph: its shapes come from the profile
/// alone, everything that changes is read from device memory, loops run for the
/// worst case, and nothing synchronizes, reads back or allocates.
pub trait CaptureSafeKernel {
    /// Whether the kernel keeps these rules.
    const CAPTURE_SAFE: bool;
}

/// A backend for quantized matrix products: which ones it has on an architecture.
pub trait QuantGemm {
    fn w4a16(&self, arch: Arch) -> bool;

    fn w4a8(&self, arch: Arch) -> bool;

    fn moe_wna16(&self, arch: Arch) -> bool;
}

/// The kernels of an architecture.
pub fn dispatch(arch: Arch) -> (r: &'static str)
    ensures
        r@ == "marlin-ffi+attention-rs(快照)"@,
{
    match arch {
        Arch::Sm86 => "marlin-ffi+attention-rs(快照)",
        Arch::Sm89 => "marlin-ffi+attention-rs(快照)",
    }
}

} // verus!
