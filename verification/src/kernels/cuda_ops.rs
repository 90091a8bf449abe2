//! Launch descriptions of the basic single precision kernels.
//!
//! A description is plain data. Whoever owns the device launches it.

use vstd::prelude::*;

verus! {

/// One launch. A slot holds a pointer, or a scalar in its low bytes.
pub struct KernelFn {
    pub name: &'static str,
    pub func: &'static str,
    /// The compiled module that holds the kernel.
    pub ptx: &'static str,
    pub slots: Vec<u64>,
    pub grid: (u32, u32, u32),
    pub block: (u32, u32, u32),
    pub shared_mem: u32,
}

/// How many blocks of `size` hold `n`, rounded up.
pub open spec fn blocks(n: int, size: int) -> int {
    (n + size - 1) / size
}

impl KernelFn {
    /// Whether this is the launch of `name`.
    pub open spec fn is(
        &self,
        name: Seq<char>,
        ptx: Seq<char>,
        slots: Seq<u64>,
        grid: (int, int, int),
        block: (int, int, int),
        shared_mem: int,
    ) -> bool {
        &&& self.name@ == name
        &&& self.func@ == name
        &&& self.ptx@ == ptx
        &&& self.slots@ =~= slots
        &&& (self.grid.0 as int, self.grid.1 as int, self.grid.2 as int) == grid
        &&& (self.block.0 as int, self.block.1 as int, self.block.2 as int) == block
        &&& self.shared_mem == shared_mem
    }

    /// One dimension of blocks with 256 threads.
    pub fn grid_1d(n: usize) -> (r: (u32, u32, u32))
        requires
            (n as u32) + 255 <= u32::MAX,
        ensures
            r.0 == blocks((n as u32) as int, 256),
            r.1 == 1,
            r.2 == 1,
    {
        ((n as u32 + 255) / 256, 1, 1)
    }

    /// The sum of `n` elements each.
    pub fn add(a: u64, b: u64, out: u64, n: usize, ptx: &'static str) -> (r: KernelFn)
        requires
            (n as u32) + 255 <= u32::MAX,
        ensures
            r.is(
                "owl_add_f32"@,
                ptx@,
                seq![a, b, out, n as u64],
                (blocks((n as u32) as int, 256), 1, 1),
                (256, 1, 1),
                0,
            ),
    {
        let mut slots: Vec<u64> = Vec::new();
        slots.push(a);
        slots.push(b);
        slots.push(out);
        slots.push(n as u64);
        KernelFn {
            name: "owl_add_f32",
            func: "owl_add_f32",
            ptx,
            slots,
            grid: KernelFn::grid_1d(n),
            block: (256, 1, 1),
            shared_mem: 0,
        }
    }

    /// The silu of `n` elements.
    pub fn silu(x: u64, out: u64, n: usize, ptx: &'static str) -> (r: KernelFn)
        requires
            (n as u32) + 255 <= u32::MAX,
        ensures
            r.is(
                "owl_silu_f32"@,
                ptx@,
                seq![x, out, n as u64],
                (blocks((n as u32) as int, 256), 1, 1),
                (256, 1, 1),
                0,
            ),
    {
        let mut slots: Vec<u64> = Vec::new();
        slots.push(x);
        slots.push(out);
        slots.push(n as u64);
        KernelFn {
            name: "owl_silu_f32",
            func: "owl_silu_f32",
            ptx,
            slots,
            grid: KernelFn::grid_1d(n),
            block: (256, 1, 1),
            shared_mem: 0,
        }
    }

    /// The product of `(m, k)` and `(k, n)`, in tiles of 16 by 16.
    pub fn matmul(a: u64, b: u64, out: u64, m: usize, k: usize, n: usize, ptx: &'static str) -> (r:
        KernelFn)
        requires
            (m as u32) + 15 <= u32::MAX,
            (n as u32) + 15 <= u32::MAX,
        ensures
            r.is(
                "owl_matmul_f32"@,
                ptx@,
                seq![a, b, out, m as u64, k as u64, n as u64],
                (blocks((m as u32) as int, 16), blocks((n as u32) as int, 16), 1),
                (16, 16, 1),
                0,
            ),
    {
        let mut slots: Vec<u64> = Vec::new();
        slots.push(a);
        slots.push(b);
        slots.push(out);
        slots.push(m as u64);
        slots.push(k as u64);
        slots.push(n as u64);
        KernelFn {
            name: "owl_matmul_f32",
            func: "owl_matmul_f32",
            ptx,
            slots,
            grid: ((m as u32 + 15) / 16, (n as u32 + 15) / 16, 1),
            block: (16, 16, 1),
            shared_mem: 0,
        }
    }

    /// The root mean square norm of `rows` rows of `n`: one block per row, and a
    /// single per thread for the reduction. `eps` holds the bits of a single; with
    /// `w_off` the weights count from one.
    pub fn rmsnorm(
        x: u64,
        alpha: u64,
        out: u64,
        rows: usize,
        n: usize,
        eps: u32,
        w_off: bool,
        ptx: &'static str,
    ) -> (r: KernelFn)
        ensures
            r.is(
                "owl_rmsnorm_f32"@,
                ptx@,
                seq![
                    x,
                    alpha,
                    out,
                    n as u64,
                    eps as u64,
                    if w_off {
                        1u64
                    } else {
                        0u64
                    },
                ],
                ((rows as u32) as int, 1, 1),
                (256, 1, 1),
                1024,
            ),
    {
        let mut slots: Vec<u64> = Vec::new();
        slots.push(x);
        slots.push(alpha);
        slots.push(out);
        slots.push(n as u64);
        slots.push(eps as u64);
        slots.push(
            if w_off {
                1
            } else {
                0
            },
        );
        KernelFn {
            name: "owl_rmsnorm_f32",
            func: "owl_rmsnorm_f32",
            ptx,
            slots,
            grid: (rows as u32, 1, 1),
            block: (256, 1, 1),
            shared_mem: 256 * 4,
        }
    }
}

/// The blocks of a launch have a thread for every element, and one block less
/// would not.
pub proof fn law_blocks_cover(n: int, size: int)
    requires
        n >= 0,
        size > 0,
    ensures
        blocks(n, size) * size >= n,
        n > 0 ==> (blocks(n, size) - 1) * size < n,
        n == 0 ==> blocks(n, size) == 0,
{
    let b = blocks(n, size);
    vstd::arithmetic::div_mod::lemma_fundamental_div_mod(n + size - 1, size);
    vstd::arithmetic::div_mod::lemma_mod_bound(n + size - 1, size);
    assert(size * b == b * size) by (nonlinear_arith);
    assert((b - 1) * size == b * size - size) by (nonlinear_arith);
    if n == 0 {
        vstd::arithmetic::div_mod::lemma_basic_div(size - 1, size);
    }
}

} // verus!
