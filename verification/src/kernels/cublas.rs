//! The half precision matrix product of the cuBLAS library.
//!
//! Matrices are row major here and column major there, so the operands trade
//! places: the product is computed as its transpose.

use crate::text;
use vstd::prelude::*;

verus! {

/// The name under which a launch asks for the library instead of a kernel. Its
/// arguments are the blocks a, b and out, then the sizes m, k, n and the flag nt.
pub const GEMM_F16: &'static str = "cublas_gemm_f16";

/// Whether a launch of this name is a call of the library.
pub fn is_foreign(name: &str) -> (r: bool)
    ensures
        r == (name@ == GEMM_F16@),
{
    text::same_text(name, GEMM_F16)
}

/// How an operand is read.
#[derive(Debug, Clone, Copy, PartialEq, Eq, Structural)]
pub enum Operation {
    AsIs,
    Transposed,
}

/// The column major call: the library multiplies `b` by `a`, in this order.
#[derive(Debug, Clone, Copy, PartialEq, Eq, Structural)]
pub struct GemmCall {
    pub first: u64,
    pub first_op: Operation,
    pub first_ld: i32,
    pub second: u64,
    pub second_op: Operation,
    pub second_ld: i32,
    pub out: u64,
    pub out_ld: i32,
    pub rows: i32,
    pub cols: i32,
    pub depth: i32,
}

/// The call for `n` rows of input with `k` columns and `m` results each. With `nt`
/// the weight is `(m, k)`, otherwise `(k, m)`.
pub fn gemm_f16(a: u64, b: u64, out: u64, m: usize, k: usize, n: usize, nt: bool) -> (r: GemmCall)
    ensures
        r == (GemmCall {
            first: b,
            first_op: if nt {
                Operation::Transposed
            } else {
                Operation::AsIs
            },
            first_ld: if nt {
                k as i32
            } else {
                m as i32
            },
            second: a,
            second_op: Operation::AsIs,
            second_ld: k as i32,
            out,
            out_ld: m as i32,
            rows: m as i32,
            cols: n as i32,
            depth: k as i32,
        }),
{
    let (first_op, first_ld) = if nt {
        (Operation::Transposed, k as i32)
    } else {
        (Operation::AsIs, m as i32)
    };
    GemmCall {
        first: b,
        first_op,
        first_ld,
        second: a,
        second_op: Operation::AsIs,
        second_ld: k as i32,
        out,
        out_ld: m as i32,
        rows: m as i32,
        cols: n as i32,
        depth: k as i32,
    }
}

/// The place of row `i`, column `j` in a column major matrix.
pub open spec fn column_major(ld: int, i: int, j: int) -> int {
    i + j * ld
}

/// The place of row `i`, column `j` in a row major matrix with `cols` columns.
pub open spec fn row_major(cols: int, i: int, j: int) -> int {
    i * cols + j
}

/// The place that the library reads for row `i`, column `j` of an operand.
pub open spec fn read_place(op: Operation, ld: int, i: int, j: int) -> int {
    match op {
        Operation::AsIs => column_major(ld, i, j),
        Operation::Transposed => column_major(ld, j, i),
    }
}

/// The column major call is the row major product: for result `i` of input row `j`,
/// the library reads at depth `d` the entries that belong together, and writes to
/// the row major place of the result.
pub proof fn law_gemm_reads_row_major(m: int, k: int, i: int, j: int, d: int)
    ensures
        // The weight `(m, k)` at `(i, d)`.
        read_place(Operation::Transposed, k, i, d) == row_major(k, i, d),
        // The weight `(k, m)` at `(d, i)`.
        read_place(Operation::AsIs, m, i, d) == row_major(m, d, i),
        // The input `(n, k)` at `(j, d)`.
        read_place(Operation::AsIs, k, d, j) == row_major(k, j, d),
        // The output `(n, m)` at `(j, i)`.
        column_major(m, i, j) == row_major(m, j, i),
{
}

} // verus!
