//! Tensor parallel layers: how heads and weights are split over ranks.

use super::linear::{self, LinearPlan, Slice};
use super::tensor::Shard;
use super::var_builder::VarBuilderX;
use crate::dtype::Dtype;
use crate::text;
use std::rc::Rc;
use vstd::prelude::*;

verus! {

/// A communication group.
#[derive(Debug, Clone, Copy, PartialEq, Eq, Structural)]
pub struct Comm {
    pub world_size: usize,
    pub rank: usize,
}

impl Comm {
    /// The group of a single rank.
    pub fn new() -> (r: Rc<Self>)
        ensures
            *r == (Comm { world_size: 1, rank: 0 }),
    {
        Rc::new(Comm { world_size: 1, rank: 0 })
    }
}

impl Default for Comm {
    fn default() -> (r: Self)
        ensures
            r == (Comm { world_size: 1, rank: 0 }),
    {
        Comm { world_size: 1, rank: 0 }
    }
}

/// Heads that do not divide over the ranks.
#[derive(Debug, Clone, Copy, PartialEq, Eq, Structural)]
pub struct HeadShardError {
    pub num_kv_heads: usize,
    pub world_size: usize,
}

/// The part `rank` of a tensor that is split along `dim`.
pub fn shard(dim: usize, rank: usize, world_size: usize) -> (r: Shard)
    ensures
        r == (Shard { dim, rank, world_size }),
{
    Shard { dim, rank, world_size }
}

/// How many KV heads a rank holds, and its part of their weights.
pub fn kv_head_shard(num_kv_heads: usize, rank: usize, world_size: usize) -> (r: Result<
    (usize, Shard),
    HeadShardError,
>)
    requires
        world_size > 0,
    ensures
        num_kv_heads as int % world_size as int == 0 ==> (r matches Ok((heads, sd)) && heads
            == num_kv_heads as int / world_size as int && sd == (Shard {
            dim: 0,
            rank,
            world_size,
        })),
        num_kv_heads as int % world_size as int != 0 ==> r == Err::<
            (usize, Shard),
            HeadShardError,
        >(HeadShardError { num_kv_heads, world_size }),
{
    if num_kv_heads % world_size != 0 {
        Err(HeadShardError { num_kv_heads, world_size })
    } else {
        Ok((num_kv_heads / world_size, shard(0, rank, world_size)))
    }
}

/// Evenly split heads add up to all heads.
pub proof fn law_head_shards_add_up(num_kv_heads: int, world_size: int)
    requires
        world_size > 0,
        num_kv_heads >= 0,
        num_kv_heads % world_size == 0,
    ensures
        world_size * (num_kv_heads / world_size) == num_kv_heads,
{
    vstd::arithmetic::div_mod::lemma_fundamental_div_mod(num_kv_heads, world_size);
}

/// Whether a layer can be loaded: quantized loading is open only for modules that
/// the quantization skips, and closed for quantized single files.
pub open spec fn is_dense(vb: &VarBuilderX, quant_method: Option<&str>, skip_module: bool) -> bool {
    &&& !vb.is_gguf
    &&& quant_method matches Some(m) ==> m@.len() == 0 || skip_module
}

/// A layer that every rank holds whole.
pub struct ReplicatedLinear {
    /// The module below which the weight stands.
    pub path: String,
    pub inner: LinearPlan,
}

impl ReplicatedLinear {
    pub fn new(
        in_dim: usize,
        out_dim: usize,
        vb: &VarBuilderX,
        shard: Shard,
        quant_method: Option<&str>,
        skip_module: bool,
        dtype: Dtype,
        bias: bool,
    ) -> (r: Self)
        requires
            is_dense(vb, quant_method, skip_module),
        ensures
            r.path@ == vb.path@,
            r.inner.is_plain(in_dim, out_dim, shard, dtype, false),
    {
        ReplicatedLinear {
            path: text::copy(vb.path()),
            inner: linear::linear_b_x(
                in_dim,
                out_dim,
                bias,
                vb,
                shard,
                quant_method,
                skip_module,
                dtype,
            ),
        }
    }

    /// An unquantized layer, whole.
    pub fn load_b(in_dim: usize, out_dim: usize, bias: bool, vb: &VarBuilderX, dtype: Dtype) -> (r:
        Self)
        requires
            !vb.is_gguf,
        ensures
            r.path@ == vb.path@,
            r.inner.is_plain(
                in_dim,
                out_dim,
                (Shard { dim: 0, rank: 0, world_size: 0 }),
                dtype,
                false,
            ),
    {
        let whole: Shard = Shard { dim: 0, rank: 0, world_size: 0 };
        ReplicatedLinear::new(in_dim, out_dim, vb, whole, None, false, dtype, bias)
    }
}

/// A layer that is split along the output.
pub struct TensorParallelColumnLinear {
    /// The module below which the weight stands.
    pub path: String,
    pub inner: LinearPlan,
}

impl TensorParallelColumnLinear {
    pub fn new_loaded(
        in_dim: usize,
        out_dim: usize,
        vb: &VarBuilderX,
        shard: Shard,
        quant_method: Option<&str>,
        skip_module: bool,
        dtype: Dtype,
        bias: bool,
    ) -> (r: Self)
        requires
            is_dense(vb, quant_method, skip_module),
        ensures
            r.path@ == vb.path@,
            r.inner.is_plain(in_dim, out_dim, shard, dtype, false),
    {
        TensorParallelColumnLinear {
            path: text::copy(vb.path()),
            inner: linear::linear_b_x(
                in_dim,
                out_dim,
                bias,
                vb,
                shard,
                quant_method,
                skip_module,
                dtype,
            ),
        }
    }

    /// The part of this rank.
    pub fn load_with_hints(
        in_dim: usize,
        out_dim: usize,
        bias: bool,
        vb: &VarBuilderX,
        comm: &Comm,
        quant_method: Option<&str>,
        skip_module: bool,
        dtype: Dtype,
    ) -> (r: Self)
        requires
            is_dense(vb, quant_method, skip_module),
        ensures
            r.path@ == vb.path@,
            r.inner.is_plain(
                in_dim,
                out_dim,
                (Shard { dim: 0, rank: comm.rank, world_size: comm.world_size }),
                dtype,
                false,
            ),
    {
        let sd: Shard = shard(0, comm.rank, comm.world_size);
        TensorParallelColumnLinear::new_loaded(
            in_dim,
            out_dim,
            vb,
            sd,
            quant_method,
            skip_module,
            dtype,
            bias,
        )
    }

    /// A given part, such as that of the KV heads.
    pub fn load_with_shard(
        in_dim: usize,
        out_dim: usize,
        bias: bool,
        vb: &VarBuilderX,
        shard: Shard,
        quant_method: Option<&str>,
        skip_module: bool,
        dtype: Dtype,
    ) -> (r: Self)
        requires
            is_dense(vb, quant_method, skip_module),
        ensures
            r.path@ == vb.path@,
            r.inner.is_plain(in_dim, out_dim, shard, dtype, false),
    {
        TensorParallelColumnLinear::new_loaded(
            in_dim,
            out_dim,
            vb,
            shard,
            quant_method,
            skip_module,
            dtype,
            bias,
        )
    }
}

/// A layer that is split along the input; the results of all ranks are added up.
pub struct TensorParallelRowLinear {
    /// The module below which the weight stands.
    pub path: String,
    pub inner: LinearPlan,
    pub comm: Comm,
    pub dtype: Dtype,
}

impl TensorParallelRowLinear {
    pub fn new_loaded(
        in_dim: usize,
        out_dim: usize,
        vb: &VarBuilderX,
        shard: Shard,
        quant_method: Option<&str>,
        skip_module: bool,
        dtype: Dtype,
        bias: bool,
        comm: &Comm,
    ) -> (r: Self)
        requires
            is_dense(vb, quant_method, skip_module),
        ensures
            r.path@ == vb.path@,
            r.inner.is_plain(in_dim, out_dim, shard, dtype, false),
            r.comm == *comm,
            r.dtype == dtype,
    {
        TensorParallelRowLinear {
            path: text::copy(vb.path()),
            inner: linear::linear_b_x(
                in_dim,
                out_dim,
                bias,
                vb,
                shard,
                quant_method,
                skip_module,
                dtype,
            ),
            comm: *comm,
            dtype,
        }
    }

    pub fn new_with_bias(
        in_dim: usize,
        out_dim: usize,
        bias: bool,
        vb: &VarBuilderX,
        shard: Shard,
        quant_method: Option<&str>,
        skip_module: bool,
        dtype: Dtype,
        comm: &Comm,
    ) -> (r: Self)
        requires
            is_dense(vb, quant_method, skip_module),
        ensures
            r.path@ == vb.path@,
            r.inner.is_plain(in_dim, out_dim, shard, dtype, false),
            r.comm == *comm,
            r.dtype == dtype,
    {
        TensorParallelRowLinear::new_loaded(
            in_dim,
            out_dim,
            vb,
            shard,
            quant_method,
            skip_module,
            dtype,
            bias,
            comm,
        )
    }

    /// The part of this rank.
    pub fn load_with_hints(
        in_dim: usize,
        out_dim: usize,
        vb: &VarBuilderX,
        comm: &Comm,
        quant_method: Option<&str>,
        skip_module: bool,
        dtype: Dtype,
    ) -> (r: Self)
        requires
            is_dense(vb, quant_method, skip_module),
        ensures
            r.path@ == vb.path@,
            r.inner.is_plain(
                in_dim,
                out_dim,
                (Shard { dim: 1, rank: comm.rank, world_size: comm.world_size }),
                dtype,
                false,
            ),
            r.comm == *comm,
            r.dtype == dtype,
    {
        let sd: Shard = shard(1, comm.rank, comm.world_size);
        TensorParallelRowLinear::new_loaded(
            in_dim,
            out_dim,
            vb,
            sd,
            quant_method,
            skip_module,
            dtype,
            false,
            comm,
        )
    }

    pub fn dtype(&self) -> (r: Dtype)
        ensures
            r == self.dtype,
    {
        self.dtype
    }
}

/// The sum of the first `i` lengths.
pub open spec fn prefix_sum(lens: Seq<usize>, i: int) -> int
    decreases i,
{
    if i <= 0 {
        0
    } else {
        prefix_sum(lens, i - 1) + lens[i - 1]
    }
}

/// The consecutive stretches of the given lengths, for the rows of a packed weight.
pub fn packed_slices(splits: &[usize]) -> (r: Vec<Slice>)
    requires
        prefix_sum(splits@, splits@.len() as int) <= usize::MAX,
    ensures
        r@.len() == splits@.len(),
        forall|i: int|
            0 <= i < r@.len() ==> (#[trigger] r@[i]).start == prefix_sum(splits@, i) && r@[i].len
                == splits@[i],
{
    let n: usize = splits.len();
    let mut r: Vec<Slice> = Vec::with_capacity(n);
    let mut start: usize = 0;
    let mut i: usize = 0;
    while i < n
        invariant
            i <= n,
            n == splits@.len(),
            prefix_sum(splits@, n as int) <= usize::MAX,
            start == prefix_sum(splits@, i as int),
            r@.len() == i,
            forall|j: int|
                0 <= j < i ==> (#[trigger] r@[j]).start == prefix_sum(splits@, j) && r@[j].len
                    == splits@[j],
        decreases n - i,
    {
        let len: usize = splits[i];
        r.push(Slice { start, len });
        proof {
            lemma_prefix_grows(splits@, i as int + 1, n as int);
        }
        start = start + len;
        i += 1;
    }
    r
}

pub proof fn lemma_prefix_grows(lens: Seq<usize>, i: int, j: int)
    requires
        0 <= i <= j <= lens.len(),
    ensures
        0 <= prefix_sum(lens, i) <= prefix_sum(lens, j),
    decreases j,
{
    if i < j {
        lemma_prefix_grows(lens, i, j - 1);
    } else if j > 0 {
        lemma_prefix_grows(lens, i - 1, j - 1);
    }
}

/// The packed slices tile the rows: each one starts where the one before ends,
/// and the last one ends at the sum of all lengths.
pub proof fn law_packed_slices_tile(lens: Seq<usize>, i: int)
    requires
        0 <= i < lens.len(),
    ensures
        prefix_sum(lens, 0) == 0,
        prefix_sum(lens, i) + lens[i] == prefix_sum(lens, i + 1),
        prefix_sum(lens, i) + lens[i] <= prefix_sum(lens, lens.len() as int),
{
    lemma_prefix_grows(lens, i + 1, lens.len() as int);
}

/// Layers that share their input. Their outputs stay apart, in order.
pub struct MergedParallelColumnLinear {
    pub linears: Vec<TensorParallelColumnLinear>,
}

impl MergedParallelColumnLinear {
    /// Part `i` stands below the name `i` and has the weight `(in_dim, out_dims[i])`.
    pub open spec fn is_numbered(
        &self,
        vb: &VarBuilderX,
        in_dim: usize,
        out_dims: Seq<usize>,
        shard: Shard,
        dtype: Dtype,
    ) -> bool {
        &&& self.linears@.len() == out_dims.len()
        &&& forall|i: int|
            0 <= i < out_dims.len() ==> (#[trigger] self.linears@[i]).path@ == text::dotted(
                vb.path@,
                text::decimal_text(i as nat),
            ) && self.linears@[i].inner.is_plain(out_dims[i], in_dim, shard, dtype, false)
    }

    pub fn new(linears: Vec<TensorParallelColumnLinear>) -> (r: Self)
        ensures
            r.linears == linears,
    {
        MergedParallelColumnLinear { linears }
    }

    /// Separately stored parts, each below its number.
    pub fn new_loaded(
        in_dim: usize,
        out_dims: &[usize],
        vb: &VarBuilderX,
        shard: Shard,
        quant_method: Option<&str>,
        skip_module: bool,
        dtype: Dtype,
    ) -> (r: Self)
        requires
            is_dense(vb, quant_method, skip_module),
        ensures
            r.is_numbered(vb, in_dim, out_dims@, shard, dtype),
    {
        let n: usize = out_dims.len();
        let mut linears: Vec<TensorParallelColumnLinear> = Vec::with_capacity(n);
        let mut i: usize = 0;
        while i < n
            invariant
                i <= n,
                n == out_dims@.len(),
                is_dense(vb, quant_method, skip_module),
                linears@.len() == i,
                forall|j: int|
                    0 <= j < i ==> (#[trigger] linears@[j]).path@ == text::dotted(
                        vb.path@,
                        text::decimal_text(j as nat),
                    ) && linears@[j].inner.is_plain(out_dims@[j], in_dim, shard, dtype, false),
            decreases n - i,
        {
            let name: String = text::decimal(i);
            let part: VarBuilderX = vb.pp(name.as_str());
            linears.push(
                TensorParallelColumnLinear::new_loaded(
                    out_dims[i],
                    in_dim,
                    &part,
                    shard,
                    quant_method,
                    skip_module,
                    dtype,
                    false,
                ),
            );
            i += 1;
        }
        MergedParallelColumnLinear { linears }
    }

    /// Separately stored chunks, each below its number, whole.
    pub fn load_merged_chunks(
        in_dim: usize,
        chunks: &[usize],
        vb: &VarBuilderX,
        quant_method: Option<&str>,
        skip_module: bool,
        dtype: Dtype,
    ) -> (r: Self)
        requires
            is_dense(vb, quant_method, skip_module),
        ensures
            r.is_numbered(
                vb,
                in_dim,
                chunks@,
                (Shard { dim: 0, rank: 0, world_size: 0 }),
                dtype,
            ),
    {
        let whole: Shard = Shard { dim: 0, rank: 0, world_size: 0 };
        MergedParallelColumnLinear::new_loaded(
            in_dim,
            chunks,
            vb,
            whole,
            quant_method,
            skip_module,
            dtype,
        )
    }

    /// The rows of a packed weight, and of its bias, that make up each part.
    pub fn from_packed_local(weight_shape: &[usize], splits: &[usize]) -> (r: Result<
        Vec<Slice>,
        EmptyWeight,
    >)
        requires
            prefix_sum(splits@, splits@.len() as int) <= usize::MAX,
        ensures
            weight_shape@.len() == 0 ==> r == Err::<Vec<Slice>, EmptyWeight>(EmptyWeight),
            weight_shape@.len() > 0 ==> (r matches Ok(parts) && parts@.len() == splits@.len()
                && forall|i: int|
                0 <= i < parts@.len() ==> (#[trigger] parts@[i]).start == prefix_sum(splits@, i)
                    && parts@[i].len == splits@[i]),
    {
        if weight_shape.len() == 0 {
            return Err(EmptyWeight);
        }
        Ok(packed_slices(splits))
    }
}

/// A packed weight without dimensions.
#[derive(Debug, Clone, Copy, PartialEq, Eq, Structural)]
pub struct EmptyWeight;

} // verus!
