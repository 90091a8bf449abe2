//! Laws of kernel launches: names, sizes and arguments.

use crate::kernels;
use crate::kernels::cublas::{self, GemmCall, Operation};
use crate::kernels::cuda_ops::KernelFn;
use crate::kernels::Arch;
use crate::models::dry_kernels::{DryKernels, Launch};
use vstd::prelude::*;

verus! {

/// A grid of blocks covers all elements, and no block is without any.
pub proof fn law_grids_cover_elements(n: usize, r: (u32, u32, u32))
    requires
        n <= u32::MAX - 255,
        call_ensures(KernelFn::grid_1d, (n,), r),
    ensures
        r.1 == 1 && r.2 == 1,
        r.0 * 256 >= n,
        n > 0 ==> (r.0 - 1) * 256 < n,
        n == 0 ==> r.0 == 0,
{
}

/// Elementwise kernels get their pointers in order and the number of elements, and run
/// on the grid of that number.
pub proof fn law_elementwise_kernels_get_their_arguments(
    a: u64,
    b: u64,
    out: u64,
    n: usize,
    ptx: &'static str,
    sum: KernelFn,
    silu: KernelFn,
    grid: (u32, u32, u32),
)
    requires
        call_ensures(KernelFn::add, (a, b, out, n, ptx), sum),
        call_ensures(KernelFn::silu, (a, out, n, ptx), silu),
        call_ensures(KernelFn::grid_1d, (n,), grid),
    ensures
        sum.name@ == "owl_add_f32"@ && sum.func@ == sum.name@ && sum.ptx@ == ptx@,
        silu.name@ == "owl_silu_f32"@ && silu.func@ == silu.name@ && silu.ptx@ == ptx@,
        sum.slots@ == seq![a, b, out, n as u64],
        silu.slots@ == seq![a, out, n as u64],
        sum.grid == grid && silu.grid == grid,
        sum.block.0 == 256 && sum.block.1 == 1 && sum.block.2 == 1 && silu.block == sum.block,
        sum.shared_mem == 0 && silu.shared_mem == 0,
{
}

/// A product runs on tiles of 16 by 16 that cover its rows and columns.
pub proof fn law_products_run_on_tiles(
    a: u64,
    b: u64,
    out: u64,
    m: usize,
    k: usize,
    n: usize,
    ptx: &'static str,
    r: KernelFn,
)
    requires
        m <= u32::MAX - 15,
        n <= u32::MAX - 15,
        call_ensures(KernelFn::matmul, (a, b, out, m, k, n, ptx), r),
    ensures
        r.name@ == "owl_matmul_f32"@ && r.func@ == r.name@ && r.ptx@ == ptx@,
        r.slots@ == seq![a, b, out, m as u64, k as u64, n as u64],
        r.block.0 == 16 && r.block.1 == 16 && r.block.2 == 1 && r.grid.2 == 1 && r.shared_mem == 0,
        r.grid.0 * 16 >= m && r.grid.1 * 16 >= n,
        m > 0 ==> (r.grid.0 - 1) * 16 < m,
        n > 0 ==> (r.grid.1 - 1) * 16 < n,
        m == 0 ==> r.grid.0 == 0,
        n == 0 ==> r.grid.1 == 0,
{
}

/// A norm runs a block for each row, and is told whether its weight is an offset.
pub proof fn law_norms_run_by_rows(
    x: u64,
    alpha: u64,
    out: u64,
    rows: usize,
    n: usize,
    eps: u32,
    off: bool,
    ptx: &'static str,
    r: KernelFn,
)
    requires
        rows <= u32::MAX,
        call_ensures(KernelFn::rmsnorm, (x, alpha, out, rows, n, eps, off, ptx), r),
    ensures
        r.name@ == "owl_rmsnorm_f32"@ && r.func@ == r.name@ && r.ptx@ == ptx@,
        r.grid.0 == rows && r.grid.1 == 1 && r.grid.2 == 1,
        r.block.0 == 256 && r.block.1 == 1 && r.block.2 == 1,
        r.shared_mem == 4 * r.block.0,
        r.slots@.len() == 6,
        r.slots@[0] == x && r.slots@[1] == alpha && r.slots@[2] == out,
        r.slots@[3] == n as u64 && r.slots@[4] == eps as u64,
        off ==> r.slots@[5] == 1,
        !off ==> r.slots@[5] == 0,
{
}

/// Where the library reads cell `(i, j)` of an operand that stands in columns.
pub open spec fn cell(op: Operation, ld: int, i: int, j: int) -> int {
    match op {
        Operation::AsIs => i + j * ld,
        Operation::Transposed => j + i * ld,
    }
}

/// A product of matrices that stand in rows: the library reads columns, so its first
/// operand is the second matrix and what it writes by columns are rows. It reads value
/// `d` of row `j` of the first matrix, and value `d` of column `i` of the second or of
/// row `i` where that one is transposed.
pub proof fn law_products_are_read_by_rows(
    a: u64,
    b: u64,
    out: u64,
    m: usize,
    k: usize,
    n: usize,
    nt: bool,
    r: GemmCall,
    i: int,
    j: int,
    d: int,
)
    requires
        m <= i32::MAX && k <= i32::MAX && n <= i32::MAX,
        call_ensures(cublas::gemm_f16, (a, b, out, m, k, n, nt), r),
        0 <= i < m,
        0 <= j < n,
        0 <= d < k,
    ensures
        r.first == b && r.second == a && r.out == out,
        r.rows == m && r.cols == n && r.depth == k,
        i + j * r.out_ld == j * m + i,
        cell(r.second_op, r.second_ld as int, d, j) == j * k + d,
        nt ==> cell(r.first_op, r.first_ld as int, i, d) == i * k + d,
        !nt ==> cell(r.first_op, r.first_ld as int, i, d) == d * m + i,
{
}

/// One name alone asks for the library.
pub proof fn law_one_name_asks_for_the_library(name: &str, r: bool)
    requires
        call_ensures(cublas::is_foreign, (name,), r),
    ensures
        r == (name@ == "cublas_gemm_f16"@),
{
}

/// All architectures share their kernels.
pub proof fn law_architectures_share_kernels(a: Arch, b: Arch, r: &'static str, q: &'static str)
    requires
        call_ensures(kernels::dispatch, (a,), r),
        call_ensures(kernels::dispatch, (b,), q),
    ensures
        r@ == q@,
        r@ == "marlin-ffi+attention-rs(快照)"@,
{
}

// ---- Kernels by name ----

/// A launch of one thread block for each of `n`.
pub open spec fn runs_each(l: Launch, name: Seq<char>, n: int, args: Seq<u64>) -> bool {
    &&& l.name@ == name
    &&& l.grid == n
    &&& l.block == 128
    &&& l.args@ == args
}

/// Kernels on single elements run once for each element, with the pointers in order and
/// the number of elements last.
pub proof fn law_plain_kernels_run_each_element(
    x: u64,
    out: u64,
    n: usize,
    v: u32,
    sin: Launch,
    cos: Launch,
    fill: Launch,
    recip: Launch,
    convert: Launch,
    sigmoid: Launch,
)
    requires
        n <= u32::MAX - 127,
        call_ensures(DryKernels::sin_f32, (x, out, n), sin),
        call_ensures(DryKernels::cos_f32, (x, out, n), cos),
        call_ensures(DryKernels::fill_f32, (out, v, n), fill),
        call_ensures(DryKernels::recip_f32, (x, out, n), recip),
        call_ensures(DryKernels::u32_to_f32, (x, out, n), convert),
        call_ensures(DryKernels::sigmoid_f32, (x, out, n), sigmoid),
    ensures
        runs_each(sin, "owl_sin_f32"@, n as int, seq![x, out, n as u64]),
        runs_each(cos, "owl_cos_f32"@, n as int, seq![x, out, n as u64]),
        runs_each(fill, "owl_fill_f32"@, n as int, seq![out, v as u64, n as u64]),
        runs_each(recip, "owl_recip_f32"@, n as int, seq![x, out, n as u64]),
        runs_each(convert, "owl_u32_to_f32"@, n as int, seq![x, out, n as u64]),
        sigmoid.name@ == "owl_sigmoid_f32"@ && sigmoid.block == 128,
        sigmoid.args@ == seq![x, out, n as u64],
        sigmoid.grid * 128 >= n,
        n > 0 ==> (sigmoid.grid - 1) * 128 < n,
        n == 0 ==> sigmoid.grid == 0,
{
}

/// Kernels on matrices run once for each element of the result.
pub proof fn law_matrix_kernels_run_each_result(
    src: u64,
    dst: u64,
    rows: usize,
    cols: usize,
    inner: usize,
    start: usize,
    t: Launch,
    narrow: Launch,
    silu: Launch,
    embed: Launch,
    ids: u64,
)
    requires
        rows * cols <= u32::MAX,
        rows <= u32::MAX,
        call_ensures(DryKernels::transpose2d_f32, (src, dst, rows, cols), t),
        call_ensures(
            DryKernels::narrow_strided_f32,
            (src, dst, rows, inner, start, cols),
            narrow,
        ),
        call_ensures(DryKernels::silu_and_mul_f32, (src, dst, rows, cols), silu),
        call_ensures(DryKernels::embed_f32, (src, ids, dst, rows, cols), embed),
    ensures
        runs_each(
            t,
            "owl_transpose2d_f32"@,
            rows * cols,
            seq![src, dst, rows as u64, cols as u64],
        ),
        runs_each(
            narrow,
            "owl_narrow_strided_f32"@,
            rows * cols,
            seq![src, dst, rows as u64, inner as u64, start as u64, cols as u64],
        ),
        runs_each(silu, "owl_silu_and_mul_f32"@, rows * cols, seq![src, dst, cols as u64]),
        runs_each(embed, "owl_embed_f32"@, rows as int, seq![src, ids, dst, cols as u64]),
{
    assert(rows * cols >= 0) by (nonlinear_arith);
}

/// Two transpositions of three dimensions differ in their name alone and cover all
/// elements.
pub proof fn law_transpositions_cover_elements(
    src: u64,
    dst: u64,
    a: usize,
    b: usize,
    c: usize,
    x: Launch,
    y: Launch,
)
    requires
        a * b * c <= u32::MAX - 127,
        call_ensures(DryKernels::transpose12_f32, (src, dst, a, b, c), x),
        call_ensures(DryKernels::transpose01_f32, (src, dst, a, b, c), y),
    ensures
        x.name@ == "owl_transpose12_f32"@ && y.name@ == "owl_transpose01_f32"@,
        x.args@ == seq![src, dst, a as u64, b as u64, c as u64] && y.args@ == x.args@,
        x.block == 128 && y.block == 128 && x.grid == y.grid,
        x.grid * 128 >= a * b * c,
        a * b * c > 0 ==> (x.grid - 1) * 128 < a * b * c,
{
    assert(a * b * c >= 0) by (nonlinear_arith);
}

/// Rotations run once for each token; a partial one is told the length of a head and of
/// half of its rotated part, a full one half of a head.
pub proof fn law_rotations_run_each_token(
    q: u64,
    k: u64,
    qo: u64,
    ko: u64,
    cos: u64,
    sin: u64,
    pos: u64,
    tokens: usize,
    heads: usize,
    kv: usize,
    d: usize,
    half: usize,
    full: Launch,
    part: Launch,
)
    requires
        tokens <= u32::MAX,
        call_ensures(
            DryKernels::rope_half_f32,
            (q, k, qo, ko, cos, sin, pos, tokens, heads, kv, d),
            full,
        ),
        call_ensures(
            DryKernels::rope_half_partial_f32,
            (q, k, qo, ko, cos, sin, pos, tokens, heads, kv, d, half),
            part,
        ),
    ensures
        full.name@ == "owl_rope_half_f32"@ && part.name@ == "owl_rope_half_partial_f32"@,
        full.grid == tokens && part.grid == tokens && full.block == 128 && part.block == 128,
        full.args@.len() == 10 && part.args@.len() == 11,
        full.args@.take(9) == part.args@.take(9),
        full.args@.take(9) == seq![q, k, qo, ko, cos, sin, pos, heads as u64, kv as u64],
        d <= u64::MAX ==> 2 * full.args@[9] <= d <= 2 * full.args@[9] + 1,
        part.args@[9] == d as u64 && part.args@[10] == half as u64,
{
    assert(full.args@.take(9) =~= seq![q, k, qo, ko, cos, sin, pos, heads as u64, kv as u64]);
    assert(part.args@.take(9) =~= full.args@.take(9));
}

/// A decode step of attention runs one thread for each head of each sequence.
pub proof fn law_decode_attention_runs_each_head(
    q: u64,
    k: u64,
    v: u64,
    kc: u64,
    vc: u64,
    slots: u64,
    lens: u64,
    out: u64,
    bs: usize,
    heads: usize,
    kv: usize,
    d: usize,
    r: Launch,
)
    requires
        bs * heads <= u32::MAX,
        call_ensures(
            DryKernels::naive_decode_attn_f32,
            (q, k, v, kc, vc, slots, lens, out, bs, heads, kv, d),
            r,
        ),
    ensures
        r.name@ == "owl_naive_decode_attn_f32"@,
        r.grid == bs * heads && r.block == 1,
        r.args@ == seq![
            q,
            k,
            v,
            kc,
            vc,
            slots,
            lens,
            out,
            heads as u64,
            kv as u64,
            d as u64,
        ],
{
    assert(bs * heads >= 0) by (nonlinear_arith);
}

} // verus!
