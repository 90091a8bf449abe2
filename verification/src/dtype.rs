//! Element types of device tensors.

use vstd::prelude::*;

verus! {

/// The element type of a device tensor.
#[derive(Debug, Clone, Copy, PartialEq, Eq, Structural)]
pub enum Dtype {
    U8,
    U32,
    I64,
    BF16,
    F16,
    F32,
    F8E8M0,
    Q8,
}

} // verus!
