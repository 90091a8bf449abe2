//! Layouts for the mixture of experts: weights of all experts stacked, and the
//! routed tokens sorted by expert into whole blocks.

use super::repack;
use super::scales;
use vstd::prelude::*;

verus! {

/// The stacked weights and scales of all experts.
pub struct MoeRepacked<S> {
    /// Gate and up projection side by side, gate first, one expert after another.
    pub w13: Vec<i32>,
    /// Down projection, one expert after another.
    pub w2: Vec<i32>,
    pub w13_s: Vec<S>,
    pub w2_s: Vec<S>,
}

/// `part(0) + part(1) + .. + part(e - 1)`.
pub open spec fn stacked<T>(part: spec_fn(int) -> Seq<T>, e: int) -> Seq<T>
    decreases e,
{
    if e <= 0 {
        Seq::empty()
    } else {
        stacked(part, e - 1) + part(e - 1)
    }
}

/// Scales in the grouped kernel order.
pub open spec fn grouped_scales<S>(s: Seq<S>, out: int, groups: int) -> Seq<S> {
    scales::permuted_scales(s, out, groups, 64, scales::grouped_perm())
}

fn extend_copy<T: Copy>(v: &mut Vec<T>, s: &Vec<T>)
    ensures
        final(v)@ == old(v)@ + s@,
{
    let n: usize = s.len();
    let mut i: usize = 0;
    while i < n
        invariant
            i <= n,
            n == s@.len(),
            v@ == old(v)@ + s@.take(i as int),
        decreases n - i,
    {
        v.push(s[i]);
        assert(s@.take(i as int + 1) =~= s@.take(i as int).push(s@[i as int]));
        i += 1;
    }
    assert(s@.take(n as int) =~= s@);
}

/// The shapes that the stacked layout takes.
pub open spec fn moe_shape(hidden: int, intermediate: int, group_size: int) -> bool {
    &&& 0 <= hidden && hidden % 256 == 0
    &&& 0 <= intermediate && intermediate % 128 == 0
    &&& group_size > 0
}

/// The weights of one expert fit the shapes.
pub open spec fn expert_fits<S>(
    gate_q: Seq<u8>,
    up_q: Seq<u8>,
    down_q: Seq<u8>,
    gate_s: Seq<S>,
    up_s: Seq<S>,
    down_s: Seq<S>,
    hidden: int,
    intermediate: int,
    group_size: int,
) -> bool {
    &&& gate_q.len() == intermediate * hidden
    &&& up_q.len() == intermediate * hidden
    &&& down_q.len() == hidden * intermediate
    &&& gate_s.len() + up_s.len() == (2 * intermediate) * (hidden / group_size)
    &&& down_s.len() == hidden * (intermediate / group_size)
}

proof fn lemma_multiple(a: int, b: int, m: int)
    by (nonlinear_arith)
    requires
        m > 0,
        a % m == 0,
        a >= 0,
        b >= 0,
    ensures
        (a * b) % m == 0,
{
    let c = a / m;
    assert(a == m * c);
    assert(a * b == m * (c * b));
}

fn repack_expert<S: Copy>(
    gate_q: &Vec<u8>,
    up_q: &Vec<u8>,
    down_q: &Vec<u8>,
    gate_s: &Vec<S>,
    up_s: &Vec<S>,
    down_s: &Vec<S>,
    hidden: usize,
    intermediate: usize,
    group_size: usize,
) -> (r: (Vec<i32>, Vec<S>, Vec<i32>, Vec<S>))
    requires
        moe_shape(hidden as int, intermediate as int, group_size as int),
        2 * intermediate <= usize::MAX,
        expert_fits(
            gate_q@,
            up_q@,
            down_q@,
            gate_s@,
            up_s@,
            down_s@,
            hidden as int,
            intermediate as int,
            group_size as int,
        ),
    ensures
        r.0@ == repack::marlin_b_words(gate_q@ + up_q@, hidden as int, 2 * intermediate),
        r.1@ == grouped_scales(
            gate_s@ + up_s@,
            2 * intermediate,
            hidden as int / group_size as int,
        ),
        r.2@ == repack::marlin_b_words(down_q@, intermediate as int, hidden as int),
        r.3@ == grouped_scales(down_s@, hidden as int, intermediate as int / group_size as int),
{
    let mut q_cat: Vec<u8> = Vec::new();
    extend_copy(&mut q_cat, gate_q);
    extend_copy(&mut q_cat, up_q);
    let mut s_cat: Vec<S> = Vec::new();
    extend_copy(&mut s_cat, gate_s);
    extend_copy(&mut s_cat, up_s);
    proof {
        assert(q_cat@ =~= gate_q@ + up_q@);
        assert(s_cat@ =~= gate_s@ + up_s@);
        assert(hidden * (2 * intermediate) == intermediate * hidden + intermediate * hidden)
            by (nonlinear_arith);
        assert(intermediate * hidden == hidden * intermediate) by (nonlinear_arith);
        lemma_multiple(2 * intermediate, hidden as int / group_size as int, 64);
        lemma_multiple(hidden as int, intermediate as int / group_size as int, 64);
    }
    let w13: Vec<i32> = repack::pack_marlin_b(&q_cat, hidden, 2 * intermediate);
    let w13_s: Vec<S> = scales::pack_marlin_s_f32(&s_cat, 2 * intermediate, hidden / group_size);
    let w2: Vec<i32> = repack::pack_marlin_b(down_q, intermediate, hidden);
    let w2_s: Vec<S> = scales::pack_marlin_s_f32(down_s, hidden, intermediate / group_size);
    (w13, w13_s, w2, w2_s)
}

/// Packs the weights and scales of all experts and stacks them. Gate and up
/// projection are joined before they are packed.
pub fn repack_moe<S: Copy + Send + Sync>(
    gate_q: &[Vec<u8>],
    up_q: &[Vec<u8>],
    down_q: &[Vec<u8>],
    gate_s: &[Vec<S>],
    up_s: &[Vec<S>],
    down_s: &[Vec<S>],
    hidden: usize,
    intermediate: usize,
    group_size: usize,
) -> (r: MoeRepacked<S>)
    requires
        gate_q@.len() > 0,
        up_q@.len() == gate_q@.len(),
        down_q@.len() == gate_q@.len(),
        gate_s@.len() == gate_q@.len(),
        up_s@.len() == gate_q@.len(),
        down_s@.len() == gate_q@.len(),
        moe_shape(hidden as int, intermediate as int, group_size as int),
        2 * intermediate <= usize::MAX,
        forall|x: int|
            0 <= x < gate_q@.len() ==> expert_fits(
                #[trigger] gate_q@[x]@,
                up_q@[x]@,
                down_q@[x]@,
                gate_s@[x]@,
                up_s@[x]@,
                down_s@[x]@,
                hidden as int,
                intermediate as int,
                group_size as int,
            ),
    ensures
        r.w13@ == stacked(
            |x: int|
                repack::marlin_b_words(gate_q@[x]@ + up_q@[x]@, hidden as int, 2 * intermediate),
            gate_q@.len() as int,
        ),
        r.w13_s@ == stacked(
            |x: int|
                grouped_scales(
                    gate_s@[x]@ + up_s@[x]@,
                    2 * intermediate,
                    hidden as int / group_size as int,
                ),
            gate_q@.len() as int,
        ),
        r.w2@ == stacked(
            |x: int| repack::marlin_b_words(down_q@[x]@, intermediate as int, hidden as int),
            gate_q@.len() as int,
        ),
        r.w2_s@ == stacked(
            |x: int|
                grouped_scales(
                    down_s@[x]@,
                    hidden as int,
                    intermediate as int / group_size as int,
                ),
            gate_q@.len() as int,
        ),
{
    let e: usize = gate_q.len();
    let ghost f13 = |x: int|
        repack::marlin_b_words(gate_q@[x]@ + up_q@[x]@, hidden as int, 2 * intermediate);
    let ghost f13s = |x: int|
        grouped_scales(
            gate_s@[x]@ + up_s@[x]@,
            2 * intermediate,
            hidden as int / group_size as int,
        );
    let ghost f2 = |x: int|
        repack::marlin_b_words(down_q@[x]@, intermediate as int, hidden as int);
    let ghost f2s = |x: int|
        grouped_scales(down_s@[x]@, hidden as int, intermediate as int / group_size as int);
    let f = |x: usize| -> (p: (Vec<i32>, Vec<S>, Vec<i32>, Vec<S>))
        requires
            x < e,
        ensures
            p.0@ == f13(x as int),
            p.1@ == f13s(x as int),
            p.2@ == f2(x as int),
            p.3@ == f2s(x as int),
        {
            assert(expert_fits(
                gate_q@[x as int]@,
                up_q@[x as int]@,
                down_q@[x as int]@,
                gate_s@[x as int]@,
                up_s@[x as int]@,
                down_s@[x as int]@,
                hidden as int,
                intermediate as int,
                group_size as int,
            ));
            repack_expert(
                &gate_q[x],
                &up_q[x],
                &down_q[x],
                &gate_s[x],
                &up_s[x],
                &down_s[x],
                hidden,
                intermediate,
                group_size,
            )
        };
    let packed: Vec<(Vec<i32>, Vec<S>, Vec<i32>, Vec<S>)> = repack::par_map(e, f);
    let mut w13: Vec<i32> = Vec::new();
    let mut w13_s: Vec<S> = Vec::new();
    let mut w2: Vec<i32> = Vec::new();
    let mut w2_s: Vec<S> = Vec::new();
    let mut x: usize = 0;
    while x < e
        invariant
            x <= e,
            packed@.len() == e,
            forall|y: int| 0 <= y < e ==> call_ensures(f, (y as usize,), #[trigger] packed@[y]),
            forall|y: usize, p: (Vec<i32>, Vec<S>, Vec<i32>, Vec<S>)| #[trigger]
                call_ensures(f, (y,), p) ==> p.0@ == f13(y as int) && p.1@ == f13s(y as int)
                    && p.2@ == f2(y as int) && p.3@ == f2s(y as int),
            w13@ == stacked(f13, x as int),
            w13_s@ == stacked(f13s, x as int),
            w2@ == stacked(f2, x as int),
            w2_s@ == stacked(f2s, x as int),
        decreases e - x,
    {
        assert(call_ensures(f, (x,), packed@[x as int]));
        extend_copy(&mut w13, &packed[x].0);
        extend_copy(&mut w13_s, &packed[x].1);
        extend_copy(&mut w2, &packed[x].2);
        extend_copy(&mut w2_s, &packed[x].3);
        x += 1;
    }
    MoeRepacked { w13, w2, w13_s, w2_s }
}

/// Routed tokens sorted by expert, every expert padded to whole blocks.
pub struct MoeAlign {
    pub sorted_token_ids: Vec<i32>,
    pub expert_ids: Vec<i32>,
    pub num_tokens_post_padded: Vec<i32>,
}

/// The positions of `ids` that are routed to `expert`, ascending.
pub open spec fn routed_to(ids: Seq<i32>, expert: int) -> Seq<int>
    decreases ids.len(),
{
    if ids.len() == 0 {
        Seq::empty()
    } else if ids.last() == expert {
        routed_to(ids.drop_last(), expert).push(ids.len() - 1)
    } else {
        routed_to(ids.drop_last(), expert)
    }
}

/// How many blocks hold `n` tokens.
pub open spec fn blocks_for(n: int, block: int) -> int {
    if n % block == 0 {
        n / block
    } else {
        n / block + 1
    }
}

/// The segment of one expert: its positions, padded to whole blocks with the
/// number of all routed tokens.
pub open spec fn expert_segment(ids: Seq<i32>, block: int, expert: int) -> Seq<int> {
    let own = routed_to(ids, expert);
    Seq::new(
        (blocks_for(own.len() as int, block) * block) as nat,
        |x: int|
            if x < own.len() {
                own[x]
            } else {
                ids.len() as int
            },
    )
}

/// The segments of the first `e` experts, one after another.
pub open spec fn segments(ids: Seq<i32>, block: int, e: int) -> Seq<int> {
    stacked(|x: int| expert_segment(ids, block, x), e)
}

/// The expert of each block, for the first `e` experts.
pub open spec fn block_experts(ids: Seq<i32>, block: int, e: int) -> Seq<int> {
    stacked(
        |x: int|
            Seq::new(
                blocks_for(routed_to(ids, x).len() as int, block) as nat,
                |b: int| x,
            ),
        e,
    )
}

/// A sequence of integers in 32 bits.
pub open spec fn as_i32(s: Seq<int>) -> Seq<i32> {
    Seq::new(s.len(), |x: int| s[x] as i32)
}

proof fn lemma_blocks(n: int, block: int)
    by (nonlinear_arith)
    requires
        n >= 0,
        block > 0,
    ensures
        n % block == 0 ==> n == (n / block) * block,
        n % block != 0 ==> n + (block - n % block) == (n / block + 1) * block,
        n <= blocks_for(n, block) * block,
        0 <= blocks_for(n, block) <= n,
        0 <= n % block < block,
        blocks_for(n, block) * block >= 0,
{
}

/// Sorts the flat positions of `topk_ids` by expert, keeping their order, and
/// pads every expert to a multiple of `block_size`. `expert_ids` names the expert
/// of each block.
pub fn moe_align_block_size(
    topk_ids: &[i32],
    num_tokens: usize,
    topk: usize,
    block_size: usize,
    num_experts: usize,
) -> (r: MoeAlign)
    requires
        topk_ids@.len() == num_tokens * topk,
        block_size > 0,
        num_experts <= 0x8000_0000,
        forall|x: int| 0 <= x < topk_ids@.len() ==> 0 <= #[trigger] topk_ids@[x] < num_experts,
    ensures
        r.sorted_token_ids@ == as_i32(
            segments(topk_ids@, block_size as int, num_experts as int),
        ),
        r.expert_ids@ == as_i32(block_experts(topk_ids@, block_size as int, num_experts as int)),
        r.num_tokens_post_padded@ == seq![
            segments(topk_ids@, block_size as int, num_experts as int).len() as i32,
        ],
{
    let n: usize = topk_ids.len();
    let mut sorted_token_ids: Vec<i32> = Vec::new();
    let mut expert_ids: Vec<i32> = Vec::new();
    let mut exp: usize = 0;
    assert(as_i32(segments(topk_ids@, block_size as int, 0)) =~= Seq::empty());
    assert(as_i32(block_experts(topk_ids@, block_size as int, 0)) =~= Seq::empty());
    while exp < num_experts
        invariant
            exp <= num_experts,
            num_experts <= 0x8000_0000,
            block_size > 0,
            n == topk_ids@.len(),
            sorted_token_ids@ == as_i32(segments(topk_ids@, block_size as int, exp as int)),
            expert_ids@ == as_i32(block_experts(topk_ids@, block_size as int, exp as int)),
        decreases num_experts - exp,
    {
        let ghost done = segments(topk_ids@, block_size as int, exp as int);
        let ghost own = routed_to(topk_ids@, exp as int);
        let mut written: usize = 0;
        let mut t: usize = 0;
        assert(topk_ids@.take(0) =~= Seq::empty());
        assert(sorted_token_ids@ =~= as_i32(done + routed_to(topk_ids@.take(0), exp as int)));
        while t < n
            invariant
                t <= n,
                n == topk_ids@.len(),
                exp < 0x8000_0000,
                written == routed_to(topk_ids@.take(t as int), exp as int).len(),
                written <= t,
                sorted_token_ids@ == as_i32(
                    done + routed_to(topk_ids@.take(t as int), exp as int),
                ),
            decreases n - t,
        {
            assert(topk_ids@.take(t as int + 1).drop_last() =~= topk_ids@.take(t as int));
            if topk_ids[t] == exp as i32 {
                sorted_token_ids.push(t as i32);
                written += 1;
            }
            t += 1;
            proof {
                assert(sorted_token_ids@ =~= as_i32(
                    done + routed_to(topk_ids@.take(t as int), exp as int),
                ));
            }
        }
        assert(topk_ids@.take(n as int) =~= topk_ids@);
        proof {
            lemma_blocks(own.len() as int, block_size as int);
        }
        let rest: usize = written % block_size;
        let pad: usize = if rest == 0 {
            0
        } else {
            block_size - rest
        };
        let blocks: usize = if rest == 0 {
            written / block_size
        } else {
            written / block_size + 1
        };
        let mut p: usize = 0;
        let ghost seg = expert_segment(topk_ids@, block_size as int, exp as int);
        assert(seg.len() == own.len() + pad);
        assert(sorted_token_ids@ =~= as_i32(done + seg.take(own.len() as int))) by {
            assert(seg.take(own.len() as int) =~= own);
        }
        while p < pad
            invariant
                p <= pad,
                n == topk_ids@.len(),
                own == routed_to(topk_ids@, exp as int),
                seg == expert_segment(topk_ids@, block_size as int, exp as int),
                seg.len() == own.len() + pad,
                sorted_token_ids@ == as_i32(done + seg.take(own.len() + p)),
            decreases pad - p,
        {
            sorted_token_ids.push(n as i32);
            p += 1;
            proof {
                assert(seg[own.len() + p - 1] == n);
                assert(sorted_token_ids@ =~= as_i32(done + seg.take(own.len() + p)));
            }
        }
        proof {
            assert(seg.take(own.len() + pad) =~= seg);
            assert(segments(topk_ids@, block_size as int, exp + 1) =~= done + seg);
        }
        let ghost named = block_experts(topk_ids@, block_size as int, exp as int);
        let mut b: usize = 0;
        assert(as_i32(named) =~= as_i32(named + Seq::new(0, |y: int| exp as int)));
        while b < blocks
            invariant
                b <= blocks,
                expert_ids@ == as_i32(named + Seq::new(b as nat, |y: int| exp as int)),
            decreases blocks - b,
        {
            expert_ids.push(exp as i32);
            b += 1;
            proof {
                assert(expert_ids@ =~= as_i32(named + Seq::new(b as nat, |y: int| exp as int)));
            }
        }
        proof {
            assert(block_experts(topk_ids@, block_size as int, exp + 1) =~= named + Seq::new(
                blocks as nat,
                |y: int| exp as int,
            ));
        }
        exp += 1;
    }
    let total: i32 = sorted_token_ids.len() as i32;
    let mut num_tokens_post_padded: Vec<i32> = Vec::new();
    num_tokens_post_padded.push(total);
    MoeAlign { sorted_token_ids, expert_ids, num_tokens_post_padded }
}

proof fn lemma_routed(ids: Seq<i32>, expert: int)
    ensures
        forall|x: int|
            0 <= x < routed_to(ids, expert).len() ==> 0 <= #[trigger] routed_to(ids, expert)[x]
                < ids.len() && ids[routed_to(ids, expert)[x]] == expert,
        forall|x: int, y: int|
            0 <= x < y < routed_to(ids, expert).len() ==> #[trigger] routed_to(ids, expert)[x]
                < #[trigger] routed_to(ids, expert)[y],
    decreases ids.len(),
{
    if ids.len() > 0 {
        lemma_routed(ids.drop_last(), expert);
        assert forall|x: int| 0 <= x < routed_to(ids, expert).len() implies 0
            <= #[trigger] routed_to(ids, expert)[x] < ids.len() && ids[routed_to(ids, expert)[x]]
            == expert by {
            let inner = routed_to(ids.drop_last(), expert);
            if x < inner.len() {
                assert(routed_to(ids, expert)[x] == inner[x]);
                assert(ids.drop_last()[inner[x]] == ids[inner[x]]);
            }
        }
        assert forall|x: int, y: int| 0 <= x < y < routed_to(ids, expert).len() implies
            #[trigger] routed_to(ids, expert)[x] < #[trigger] routed_to(ids, expert)[y] by {
            let inner = routed_to(ids.drop_last(), expert);
            assert(routed_to(ids, expert)[x] == inner[x]);
            if y < inner.len() {
                assert(routed_to(ids, expert)[y] == inner[y]);
            }
        }
    }
}

proof fn lemma_routed_complete(ids: Seq<i32>, p: int) -> (z: int)
    requires
        0 <= p < ids.len(),
    ensures
        0 <= z < routed_to(ids, ids[p] as int).len(),
        routed_to(ids, ids[p] as int)[z] == p,
    decreases ids.len(),
{
    let inner = routed_to(ids.drop_last(), ids[p] as int);
    if p == ids.len() - 1 {
        inner.len() as int
    } else {
        assert(ids.drop_last()[p] == ids[p]);
        lemma_routed_complete(ids.drop_last(), p)
    }
}

proof fn lemma_in_block(m: int, z: int, c: int, block: int)
    by (nonlinear_arith)
    requires
        block > 0,
        0 <= z < c * block,
        m >= 0,
    ensures
        (block * m + z) / block == m + z / block,
        0 <= z / block < c,
{
}

/// The padded tokens fill the named blocks exactly.
pub proof fn law_align_fills_whole_blocks(ids: Seq<i32>, block: int, e: int)
    requires
        block > 0,
        e >= 0,
    ensures
        segments(ids, block, e).len() == block * block_experts(ids, block, e).len(),
    decreases e,
{
    if e > 0 {
        law_align_fills_whole_blocks(ids, block, e - 1);
        let own = routed_to(ids, e - 1);
        lemma_blocks(own.len() as int, block);
        let c = blocks_for(own.len() as int, block);
        let m = block_experts(ids, block, e - 1).len();
        assert(block * (m + c) == block * m + c * block) by (nonlinear_arith);
    } else {
        assert(block * 0 == 0) by (nonlinear_arith);
    }
}

/// Every entry is the padding, or a token that is routed to the expert named for
/// its block.
pub proof fn law_align_blocks_name_their_expert(ids: Seq<i32>, block: int, e: int, y: int)
    requires
        block > 0,
        e >= 0,
        0 <= y < segments(ids, block, e).len(),
    ensures
        0 <= y / block < block_experts(ids, block, e).len(),
        0 <= block_experts(ids, block, e)[y / block] < e,
        ({
            let v = segments(ids, block, e)[y];
            v == ids.len() || (0 <= v < ids.len() && ids[v] == block_experts(ids, block, e)[y
                / block])
        }),
    decreases e,
{
    if e > 0 {
        law_align_fills_whole_blocks(ids, block, e - 1);
        law_align_fills_whole_blocks(ids, block, e);
        let l = segments(ids, block, e - 1).len() as int;
        let m = block_experts(ids, block, e - 1).len() as int;
        let own = routed_to(ids, e - 1);
        lemma_blocks(own.len() as int, block);
        let c = blocks_for(own.len() as int, block);
        if y < l {
            law_align_blocks_name_their_expert(ids, block, e - 1, y);
        } else {
            let z = y - l;
            lemma_in_block(m, z, c, block);
            lemma_routed(ids, e - 1);
            assert(segments(ids, block, e)[y] == expert_segment(ids, block, e - 1)[z]);
        }
    }
}

/// Every routed token stands in the sorted order.
pub proof fn law_align_keeps_every_token(ids: Seq<i32>, block: int, e: int, p: int) -> (y: int)
    requires
        block > 0,
        0 <= p < ids.len(),
        0 <= ids[p] < e,
    ensures
        0 <= y < segments(ids, block, e).len(),
        segments(ids, block, e)[y] == p,
    decreases e,
{
    let l = segments(ids, block, e - 1).len() as int;
    if ids[p] < e - 1 {
        let y = law_align_keeps_every_token(ids, block, e - 1, p);
        assert(segments(ids, block, e)[y] == segments(ids, block, e - 1)[y]);
        y
    } else {
        let z = lemma_routed_complete(ids, p);
        lemma_blocks(routed_to(ids, e - 1).len() as int, block);
        assert(segments(ids, block, e)[l + z] == expert_segment(ids, block, e - 1)[z]);
        l + z
    }
}

/// No routed token stands in the sorted order twice.
pub proof fn law_align_keeps_tokens_once(ids: Seq<i32>, block: int, e: int, y1: int, y2: int)
    requires
        block > 0,
        e >= 0,
        0 <= y1 < y2 < segments(ids, block, e).len(),
        segments(ids, block, e)[y1] != ids.len(),
    ensures
        segments(ids, block, e)[y1] != segments(ids, block, e)[y2],
    decreases e,
{
    if e > 0 {
        let l = segments(ids, block, e - 1).len() as int;
        lemma_routed(ids, e - 1);
        if y2 < l {
            law_align_keeps_tokens_once(ids, block, e - 1, y1, y2);
        } else if y1 < l {
            law_align_blocks_name_their_expert(ids, block, e - 1, y1);
            assert(segments(ids, block, e)[y1] == segments(ids, block, e - 1)[y1]);
            assert(segments(ids, block, e)[y2] == expert_segment(ids, block, e - 1)[y2 - l]);
        } else {
            assert(segments(ids, block, e)[y1] == expert_segment(ids, block, e - 1)[y1 - l]);
            assert(segments(ids, block, e)[y2] == expert_segment(ids, block, e - 1)[y2 - l]);
        }
    }
}

} // verus!
