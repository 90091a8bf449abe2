//! Launch descriptions of the plain kernels behind a dry run: one thread or block
//! per element, no allocation, no synchronization.

use crate::kernels::cuda_ops;
use vstd::prelude::*;

verus! {

/// One launch: pointers and sizes as 64 bit arguments, no shared memory.
pub struct Launch {
    pub name: &'static str,
    pub grid: u32,
    pub block: u32,
    pub args: Vec<u64>,
}

impl Launch {
    /// Whether this is the launch of `name`.
    pub open spec fn is(&self, name: Seq<char>, grid: int, block: int, args: Seq<u64>) -> bool {
        &&& self.name@ == name
        &&& self.grid == grid
        &&& self.block == block
        &&& self.args@ =~= args
    }
}

/// The plain kernels.
pub struct DryKernels;

impl DryKernels {
    /// The sine of every element.
    pub fn sin_f32(x: u64, out: u64, n: usize) -> (r: Launch)
        ensures
            r.is("owl_sin_f32"@, (n as u32) as int, 128, seq![x, out, n as u64]),
    {
        let mut args: Vec<u64> = Vec::new();
        args.push(x);
        args.push(out);
        args.push(n as u64);
        Launch { name: "owl_sin_f32", grid: n as u32, block: 128, args }
    }

    /// The cosine of every element.
    pub fn cos_f32(x: u64, out: u64, n: usize) -> (r: Launch)
        ensures
            r.is("owl_cos_f32"@, (n as u32) as int, 128, seq![x, out, n as u64]),
    {
        let mut args: Vec<u64> = Vec::new();
        args.push(x);
        args.push(out);
        args.push(n as u64);
        Launch { name: "owl_cos_f32", grid: n as u32, block: 128, args }
    }

    /// Row `ids[t]` of the table for every token.
    pub fn embed_f32(w: u64, ids: u64, out: u64, tokens: usize, d_dim: usize) -> (r: Launch)
        ensures
            r.is("owl_embed_f32"@, (tokens as u32) as int, 128, seq![w, ids, out, d_dim as u64]),
    {
        let mut args: Vec<u64> = Vec::new();
        args.push(w);
        args.push(ids);
        args.push(out);
        args.push(d_dim as u64);
        Launch { name: "owl_embed_f32", grid: tokens as u32, block: 128, args }
    }

    /// Rotates the halves of every head of queries and keys. The tables have one column
    /// for each pair.
    pub fn rope_half_f32(
        q: u64,
        k: u64,
        q_out: u64,
        k_out: u64,
        cos: u64,
        sin: u64,
        positions: u64,
        tokens: usize,
        heads: usize,
        kv_heads: usize,
        head_dim: usize,
    ) -> (r: Launch)
        ensures
            r.is(
                "owl_rope_half_f32"@,
                (tokens as u32) as int,
                128,
                seq![
                    q,
                    k,
                    q_out,
                    k_out,
                    cos,
                    sin,
                    positions,
                    heads as u64,
                    kv_heads as u64,
                    (head_dim / 2) as u64,
                ],
            ),
    {
        let mut args: Vec<u64> = Vec::new();
        args.push(q);
        args.push(k);
        args.push(q_out);
        args.push(k_out);
        args.push(cos);
        args.push(sin);
        args.push(positions);
        args.push(heads as u64);
        args.push(kv_heads as u64);
        args.push((head_dim / 2) as u64);
        Launch { name: "owl_rope_half_f32", grid: tokens as u32, block: 128, args }
    }

    /// The sigmoid of every element.
    pub fn sigmoid_f32(x: u64, out: u64, n: usize) -> (r: Launch)
        requires
            (n as u32) + 127 <= u32::MAX,
        ensures
            r.is(
                "owl_sigmoid_f32"@,
                cuda_ops::blocks((n as u32) as int, 128),
                128,
                seq![x, out, n as u64],
            ),
    {
        let mut args: Vec<u64> = Vec::new();
        args.push(x);
        args.push(out);
        args.push(n as u64);
        Launch { name: "owl_sigmoid_f32", grid: (n as u32 + 127) / 128, block: 128, args }
    }

    /// Swaps the last two of three dimensions.
    pub fn transpose12_f32(src: u64, dst: u64, a: usize, b: usize, c: usize) -> (r: Launch)
        requires
            a * b <= usize::MAX,
            a * b * c <= usize::MAX,
            ((a * b * c) as u32) + 127 <= u32::MAX,
        ensures
            r.is(
                "owl_transpose12_f32"@,
                cuda_ops::blocks(((a * b * c) as u32) as int, 128),
                128,
                seq![src, dst, a as u64, b as u64, c as u64],
            ),
    {
        proof {
            let ab = a * b;
            assert(ab >= 0) by (nonlinear_arith)
                requires
                    ab == a * b,
            ;
            assert(ab * c >= 0) by (nonlinear_arith)
                requires
                    ab >= 0,
            ;
        }
        let total: usize = a * b * c;
        let mut args: Vec<u64> = Vec::new();
        args.push(src);
        args.push(dst);
        args.push(a as u64);
        args.push(b as u64);
        args.push(c as u64);
        Launch { name: "owl_transpose12_f32", grid: (total as u32 + 127) / 128, block: 128, args }
    }

    /// Swaps the first two of three dimensions.
    pub fn transpose01_f32(src: u64, dst: u64, a: usize, b: usize, c: usize) -> (r: Launch)
        requires
            a * b <= usize::MAX,
            a * b * c <= usize::MAX,
            ((a * b * c) as u32) + 127 <= u32::MAX,
        ensures
            r.is(
                "owl_transpose01_f32"@,
                cuda_ops::blocks(((a * b * c) as u32) as int, 128),
                128,
                seq![src, dst, a as u64, b as u64, c as u64],
            ),
    {
        proof {
            let ab = a * b;
            assert(ab >= 0) by (nonlinear_arith)
                requires
                    ab == a * b,
            ;
            assert(ab * c >= 0) by (nonlinear_arith)
                requires
                    ab >= 0,
            ;
        }
        let total: usize = a * b * c;
        let mut args: Vec<u64> = Vec::new();
        args.push(src);
        args.push(dst);
        args.push(a as u64);
        args.push(b as u64);
        args.push(c as u64);
        Launch { name: "owl_transpose01_f32", grid: (total as u32 + 127) / 128, block: 128, args }
    }

    /// Rotates the first `2 * rotary_half` entries of every head and copies the others.
    pub fn rope_half_partial_f32(
        q: u64,
        k: u64,
        q_out: u64,
        k_out: u64,
        cos: u64,
        sin: u64,
        positions: u64,
        tokens: usize,
        heads: usize,
        kv_heads: usize,
        head_dim: usize,
        rotary_half: usize,
    ) -> (r: Launch)
        ensures
            r.is(
                "owl_rope_half_partial_f32"@,
                (tokens as u32) as int,
                128,
                seq![
                    q,
                    k,
                    q_out,
                    k_out,
                    cos,
                    sin,
                    positions,
                    heads as u64,
                    kv_heads as u64,
                    head_dim as u64,
                    rotary_half as u64,
                ],
            ),
    {
        let mut args: Vec<u64> = Vec::new();
        args.push(q);
        args.push(k);
        args.push(q_out);
        args.push(k_out);
        args.push(cos);
        args.push(sin);
        args.push(positions);
        args.push(heads as u64);
        args.push(kv_heads as u64);
        args.push(head_dim as u64);
        args.push(rotary_half as u64);
        Launch { name: "owl_rope_half_partial_f32", grid: tokens as u32, block: 128, args }
    }

    /// Decoding attention, one thread per sequence and head. A negative slot is padding.
    pub fn naive_decode_attn_f32(
        q: u64,
        k: u64,
        v: u64,
        kc: u64,
        vc: u64,
        slots: u64,
        kv_lens: u64,
        out: u64,
        bs: usize,
        q_heads: usize,
        kv_heads: usize,
        head_dim: usize,
    ) -> (r: Launch)
        requires
            bs * q_heads <= usize::MAX,
        ensures
            r.is(
                "owl_naive_decode_attn_f32"@,
                ((bs * q_heads) as u32) as int,
                1,
                seq![
                    q,
                    k,
                    v,
                    kc,
                    vc,
                    slots,
                    kv_lens,
                    out,
                    q_heads as u64,
                    kv_heads as u64,
                    head_dim as u64,
                ],
            ),
    {
        proof {
            assert(bs * q_heads >= 0) by (nonlinear_arith);
        }
        let total: usize = bs * q_heads;
        let mut args: Vec<u64> = Vec::new();
        args.push(q);
        args.push(k);
        args.push(v);
        args.push(kc);
        args.push(vc);
        args.push(slots);
        args.push(kv_lens);
        args.push(out);
        args.push(q_heads as u64);
        args.push(kv_heads as u64);
        args.push(head_dim as u64);
        Launch { name: "owl_naive_decode_attn_f32", grid: total as u32, block: 1, args }
    }

    /// The transpose of a matrix.
    pub fn transpose2d_f32(src: u64, dst: u64, rows: usize, cols: usize) -> (r: Launch)
        requires
            rows * cols <= usize::MAX,
        ensures
            r.is(
                "owl_transpose2d_f32"@,
                ((rows * cols) as u32) as int,
                128,
                seq![src, dst, rows as u64, cols as u64],
            ),
    {
        proof {
            assert(rows * cols >= 0) by (nonlinear_arith);
        }
        let total: usize = rows * cols;
        let mut args: Vec<u64> = Vec::new();
        args.push(src);
        args.push(dst);
        args.push(rows as u64);
        args.push(cols as u64);
        Launch { name: "owl_transpose2d_f32", grid: total as u32, block: 128, args }
    }

    /// A stretch of one dimension, copied; `outer` counts what stands before it.
    pub fn narrow_strided_f32(
        src: u64,
        dst: u64,
        outer: usize,
        src_dim: usize,
        start: usize,
        out_dim: usize,
    ) -> (r: Launch)
        requires
            outer * out_dim <= usize::MAX,
        ensures
            r.is(
                "owl_narrow_strided_f32"@,
                ((outer * out_dim) as u32) as int,
                128,
                seq![src, dst, outer as u64, src_dim as u64, start as u64, out_dim as u64],
            ),
    {
        proof {
            assert(outer * out_dim >= 0) by (nonlinear_arith);
        }
        let total: usize = outer * out_dim;
        let mut args: Vec<u64> = Vec::new();
        args.push(src);
        args.push(dst);
        args.push(outer as u64);
        args.push(src_dim as u64);
        args.push(start as u64);
        args.push(out_dim as u64);
        Launch { name: "owl_narrow_strided_f32", grid: total as u32, block: 128, args }
    }

    /// Sets every element to the single with the bits `v`.
    pub fn fill_f32(ptr: u64, v: u32, n: usize) -> (r: Launch)
        ensures
            r.is("owl_fill_f32"@, (n as u32) as int, 128, seq![ptr, v as u64, n as u64]),
    {
        let mut args: Vec<u64> = Vec::new();
        args.push(ptr);
        args.push(v as u64);
        args.push(n as u64);
        Launch { name: "owl_fill_f32", grid: n as u32, block: 128, args }
    }

    /// The reciprocal of every element.
    pub fn recip_f32(x: u64, out: u64, n: usize) -> (r: Launch)
        ensures
            r.is("owl_recip_f32"@, (n as u32) as int, 128, seq![x, out, n as u64]),
    {
        let mut args: Vec<u64> = Vec::new();
        args.push(x);
        args.push(out);
        args.push(n as u64);
        Launch { name: "owl_recip_f32", grid: n as u32, block: 128, args }
    }

    /// The silu of the left half of every row, times the right half.
    pub fn silu_and_mul_f32(x: u64, out: u64, rows: usize, cols: usize) -> (r: Launch)
        requires
            rows * cols <= usize::MAX,
        ensures
            r.is(
                "owl_silu_and_mul_f32"@,
                ((rows * cols) as u32) as int,
                128,
                seq![x, out, cols as u64],
            ),
    {
        proof {
            assert(rows * cols >= 0) by (nonlinear_arith);
        }
        let total: usize = rows * cols;
        let mut args: Vec<u64> = Vec::new();
        args.push(x);
        args.push(out);
        args.push(cols as u64);
        Launch { name: "owl_silu_and_mul_f32", grid: total as u32, block: 128, args }
    }

    /// Whole numbers as singles.
    pub fn u32_to_f32(x: u64, out: u64, n: usize) -> (r: Launch)
        ensures
            r.is("owl_u32_to_f32"@, (n as u32) as int, 128, seq![x, out, n as u64]),
    {
        let mut args: Vec<u64> = Vec::new();
        args.push(x);
        args.push(out);
        args.push(n as u64);
        Launch { name: "owl_u32_to_f32", grid: n as u32, block: 128, args }
    }
}

} // verus!
