//! Launch descriptions.

use owl::kernels::cublas::{self, gemm_f16, Operation, GEMM_F16};
use owl::kernels::cuda_ops::KernelFn;
use owl::kernels::{dispatch, Arch, QuantGemm};
use owl::models::dry_kernels::DryKernels;

#[test]
fn blocks_round_up() {
    assert_eq!(KernelFn::grid_1d(0), (0, 1, 1));
    assert_eq!(KernelFn::grid_1d(1), (1, 1, 1));
    assert_eq!(KernelFn::grid_1d(256), (1, 1, 1));
    assert_eq!(KernelFn::grid_1d(257), (2, 1, 1));
}

#[test]
fn elementwise_launches() {
    let k = KernelFn::add(1, 2, 3, 1000, "module");
    assert_eq!((k.name, k.func, k.ptx), ("owl_add_f32", "owl_add_f32", "module"));
    assert_eq!(k.slots, vec![1, 2, 3, 1000]);
    assert_eq!((k.grid, k.block, k.shared_mem), ((4, 1, 1), (256, 1, 1), 0));
    let s = KernelFn::silu(7, 8, 10, "module");
    assert_eq!(s.name, "owl_silu_f32");
    assert_eq!(s.slots, vec![7, 8, 10]);
    assert_eq!((s.grid, s.block), ((1, 1, 1), (256, 1, 1)));
}

#[test]
fn product_launch() {
    let k = KernelFn::matmul(1, 2, 3, 17, 5, 32, "module");
    assert_eq!(k.name, "owl_matmul_f32");
    assert_eq!(k.slots, vec![1, 2, 3, 17, 5, 32]);
    assert_eq!((k.grid, k.block), ((2, 2, 1), (16, 16, 1)));
}

#[test]
fn norm_launch() {
    let eps = 1e-6f32.to_bits();
    let k = KernelFn::rmsnorm(1, 2, 3, 4, 128, eps, true, "module");
    assert_eq!(k.name, "owl_rmsnorm_f32");
    assert_eq!(k.slots, vec![1, 2, 3, 128, eps as u64, 1]);
    assert_eq!((k.grid, k.block, k.shared_mem), ((4, 1, 1), (256, 1, 1), 1024));
    assert_eq!(KernelFn::rmsnorm(1, 2, 3, 4, 128, eps, false, "module").slots[5], 0);
}

#[test]
fn gemm_operands() {
    let c = gemm_f16(10, 20, 30, 6, 5, 4, true);
    assert_eq!((c.first, c.second, c.out), (20, 10, 30));
    assert_eq!((c.first_op, c.first_ld), (Operation::Transposed, 5));
    assert_eq!((c.second_op, c.second_ld, c.out_ld), (Operation::AsIs, 5, 6));
    assert_eq!((c.rows, c.cols, c.depth), (6, 4, 5));
    let c = gemm_f16(10, 20, 30, 6, 5, 4, false);
    assert_eq!((c.first_op, c.first_ld), (Operation::AsIs, 6));
    assert!(cublas::is_foreign(GEMM_F16));
    assert!(!cublas::is_foreign("owl_add_f32"));
}

/// The column major call on row major data is the row major product.
#[test]
fn gemm_is_the_row_major_product() {
    let (m, k, n) = (2usize, 3usize, 4usize);
    let weight: Vec<i64> = (0..m * k).map(|x| x as i64 + 1).collect();
    let input: Vec<i64> = (0..n * k).map(|x| 10 - x as i64).collect();
    let c = gemm_f16(0, 0, 0, m, k, n, true);
    let at = |op: Operation, ld: i32, i: usize, j: usize| match op {
        Operation::AsIs => i + j * ld as usize,
        Operation::Transposed => j + i * ld as usize,
    };
    let mut out = vec![0i64; n * m];
    for i in 0..c.rows as usize {
        for j in 0..c.cols as usize {
            let mut sum = 0;
            for d in 0..c.depth as usize {
                sum += weight[at(c.first_op, c.first_ld, i, d)] * input[at(c.second_op, c.second_ld, d, j)];
            }
            out[i + j * c.out_ld as usize] = sum;
        }
    }
    for row in 0..n {
        for col in 0..m {
            let want: i64 = (0..k).map(|d| input[row * k + d] * weight[col * k + d]).sum();
            assert_eq!(out[row * m + col], want);
        }
    }
}

#[test]
fn one_kernel_set_for_both_architectures() {
    assert_eq!(dispatch(Arch::Sm86), "marlin-ffi+attention-rs(快照)");
    assert_eq!(dispatch(Arch::Sm89), dispatch(Arch::Sm86));
}

struct NoQuant;

impl QuantGemm for NoQuant {
    fn w4a16(&self, _arch: Arch) -> bool {
        false
    }

    fn w4a8(&self, _arch: Arch) -> bool {
        false
    }

    fn moe_wna16(&self, _arch: Arch) -> bool {
        false
    }
}

#[test]
fn a_backend_says_what_it_has() {
    assert!(!NoQuant.w4a16(Arch::Sm86));
    assert!(!NoQuant.w4a8(Arch::Sm89) && !NoQuant.moe_wna16(Arch::Sm89));
}

#[test]
fn dry_elementwise_launches() {
    let l = DryKernels::sin_f32(1, 2, 5);
    assert_eq!((l.name, l.grid, l.block), ("owl_sin_f32", 5, 128));
    assert_eq!(l.args, vec![1, 2, 5]);
    assert_eq!(DryKernels::cos_f32(1, 2, 5).name, "owl_cos_f32");
    assert_eq!(DryKernels::recip_f32(1, 2, 5).name, "owl_recip_f32");
    assert_eq!(DryKernels::u32_to_f32(1, 2, 5).name, "owl_u32_to_f32");
    let s = DryKernels::sigmoid_f32(1, 2, 129);
    assert_eq!((s.name, s.grid, s.block), ("owl_sigmoid_f32", 2, 128));
    let f = DryKernels::fill_f32(9, 2.5f32.to_bits(), 3);
    assert_eq!(f.args, vec![9, 0x4020_0000, 3]);
}

#[test]
fn dry_shape_launches() {
    let e = DryKernels::embed_f32(1, 2, 3, 7, 64);
    assert_eq!((e.name, e.grid), ("owl_embed_f32", 7));
    assert_eq!(e.args, vec![1, 2, 3, 64]);
    let t = DryKernels::transpose12_f32(1, 2, 3, 5, 10);
    assert_eq!((t.name, t.grid), ("owl_transpose12_f32", 2));
    assert_eq!(t.args, vec![1, 2, 3, 5, 10]);
    assert_eq!(DryKernels::transpose01_f32(1, 2, 3, 5, 10).name, "owl_transpose01_f32");
    let m = DryKernels::transpose2d_f32(1, 2, 3, 5);
    assert_eq!((m.grid, m.args), (15, vec![1, 2, 3, 5]));
    let n = DryKernels::narrow_strided_f32(1, 2, 4, 10, 3, 6);
    assert_eq!((n.grid, n.args), (24, vec![1, 2, 4, 10, 3, 6]));
    let g = DryKernels::silu_and_mul_f32(1, 2, 4, 6);
    assert_eq!((g.name, g.grid), ("owl_silu_and_mul_f32", 24));
}

#[test]
fn dry_attention_launches() {
    let r = DryKernels::rope_half_f32(1, 2, 3, 4, 5, 6, 7, 9, 8, 2, 64);
    assert_eq!((r.name, r.grid), ("owl_rope_half_f32", 9));
    assert_eq!(r.args, vec![1, 2, 3, 4, 5, 6, 7, 8, 2, 32]);
    let p = DryKernels::rope_half_partial_f32(1, 2, 3, 4, 5, 6, 7, 9, 8, 2, 64, 16);
    assert_eq!((p.name, p.grid), ("owl_rope_half_partial_f32", 9));
    assert_eq!(p.args[7..], [8, 2, 64, 16]);
    let d = DryKernels::naive_decode_attn_f32(1, 2, 3, 4, 5, 6, 7, 8, 3, 8, 2, 64);
    assert_eq!((d.name, d.grid, d.block), ("owl_naive_decode_attn_f32", 24, 1));
}
