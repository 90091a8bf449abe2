//! The marlin quantized matrix product: layouts and launch sizes.

pub mod moe;
pub mod repack;
pub mod scales;

use crate::text;
use vstd::prelude::*;

verus! {

/// The name under which a launch asks for the product.
pub const GEMM_W4A16: &'static str = "marlin_gemm_w4a16";

/// The order of the arguments. The workspace is zeroed; the reduction buffer may be
/// empty.
pub const GEMM_W4A16_SLOTS: &'static str =
    "[T a, T b, T out, T scales, T ws, T c_tmp, sz m, sz k, sz n, sz groupsize]";

/// Whether a launch of this name asks for the product.
pub fn is_foreign(name: &str) -> (r: bool)
    ensures
        r == (name@ == GEMM_W4A16@),
{
    text::same_text(name, GEMM_W4A16)
}

pub const V2_ERR_NO_CONFIG: i32 = 3;

pub const V2_ERR_BAD_SHAPE: i32 = 4;

pub const V2_ERR_UNSUPPORTED_DEVICE: i32 = 5;

/// The words of the workspace: 128 for every 64 columns.
pub fn v2_workspace_len(n: usize) -> (r: usize)
    requires
        n as int / 64 * 128 <= usize::MAX,
    ensures
        r == n as int / 64 * 128,
{
    (n / 64) * 128
}

/// The rows of a reduction block: `m` in whole tiles of 16, at most 64.
pub open spec fn reduce_rows(m: int) -> int {
    let whole = (m + 15) / 16 * 16;
    if whole < 64 {
        whole
    } else {
        64
    }
}

/// The singles of the reduction buffer: 256 columns for every multiprocessor.
pub fn c_tmp_float_len_v2(m: usize, sms: usize) -> (r: usize)
    requires
        (m as int + 15) / 16 * 16 <= usize::MAX,
        sms * reduce_rows(m as int) * 256 <= usize::MAX,
    ensures
        r == sms * reduce_rows(m as int) * 256,
{
    let tiles: usize = if m % 16 == 0 {
        m / 16
    } else {
        m / 16 + 1
    };
    let whole: usize = tiles * 16;
    let m_block: usize = if whole < 64 {
        whole
    } else {
        64
    };
    proof {
        let x = sms * reduce_rows(m as int);
        assert(x >= 0) by (nonlinear_arith)
            requires
                x == sms * reduce_rows(m as int),
                reduce_rows(m as int) >= 0,
        ;
    }
    sms * m_block * 256
}

/// What a code of the launcher means.
pub open spec fn err_text(err: i32) -> &'static str {
    if err == V2_ERR_NO_CONFIG {
        "no kernel config for this shape/dtype"
    } else if err == V2_ERR_BAD_SHAPE {
        "invalid m/n/k/groupsize"
    } else if err == V2_ERR_UNSUPPORTED_DEVICE {
        "device capability < 7.5 or query failed"
    } else {
        "see cudaGetErrorString(经 server 映射)"
    }
}

/// What a code of the launcher means.
pub fn v2_err_str(err: i32) -> (r: &'static str)
    ensures
        r@ == err_text(err)@,
{
    if err == V2_ERR_NO_CONFIG {
        "no kernel config for this shape/dtype"
    } else if err == V2_ERR_BAD_SHAPE {
        "invalid m/n/k/groupsize"
    } else if err == V2_ERR_UNSUPPORTED_DEVICE {
        "device capability < 7.5 or query failed"
    } else {
        "see cudaGetErrorString(经 server 映射)"
    }
}

/// The outcome of a launch: zero is success, anything else is the error.
pub fn launch_outcome(code: i32) -> (r: Result<(), i32>)
    ensures
        r == if code == 0 {
            Ok::<(), i32>(())
        } else {
            Err::<(), i32>(code)
        },
{
    if code == 0 {
        Ok(())
    } else {
        Err(code)
    }
}

} // verus!
