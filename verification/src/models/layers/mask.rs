//! Causal masks, as the bits of the singles that are added before a softmax.

use vstd::prelude::*;

verus! {

/// The bits of minus infinity.
pub const NEG_INF: u32 = 0xff80_0000;

/// Whether query `i` may not see key `j`: a later one, or one that has left the
/// window.
pub open spec fn banned(i: int, j: int, sliding_window: Option<usize>) -> bool {
    j > i || (sliding_window matches Some(w) && i - j >= w)
}

/// The mask of one sequence, row by row: zero where a key may be seen.
pub open spec fn is_causal_mask(m: Seq<u32>, n: int, sliding_window: Option<usize>) -> bool {
    &&& m.len() == n * n
    &&& forall|i: int, j: int|
        0 <= i < n && 0 <= j < n ==> #[trigger] m[i * n + j] == if banned(i, j, sliding_window) {
            NEG_INF
        } else {
            0
        }
}

/// The mask of a sequence of `n` tokens.
pub fn causal_mask(n: usize, sliding_window: Option<usize>) -> (r: Vec<u32>)
    requires
        n * n <= usize::MAX,
    ensures
        is_causal_mask(r@, n as int, sliding_window),
{
    let mut v: Vec<u32> = Vec::new();
    let mut i: usize = 0;
    while i < n
        invariant
            i <= n,
            v@.len() == i * n,
            forall|a: int, b: int|
                0 <= a < i && 0 <= b < n ==> #[trigger] v@[a * n + b] == if banned(
                    a,
                    b,
                    sliding_window,
                ) {
                    NEG_INF
                } else {
                    0
                },
        decreases n - i,
    {
        let mut j: usize = 0;
        while j < n
            invariant
                j <= n,
                i < n,
                v@.len() == i * n + j,
                forall|a: int, b: int|
                    0 <= a < i && 0 <= b < n ==> #[trigger] v@[a * n + b] == if banned(
                        a,
                        b,
                        sliding_window,
                    ) {
                        NEG_INF
                    } else {
                        0
                    },
                forall|b: int|
                    0 <= b < j ==> #[trigger] v@[i * n + b] == if banned(
                        i as int,
                        b,
                        sliding_window,
                    ) {
                        NEG_INF
                    } else {
                        0
                    },
            decreases n - j,
        {
            let out: bool = j > i || match sliding_window {
                Some(w) => i - j >= w,
                None => false,
            };
            let ghost before = v@;
            v.push(
                if out {
                    NEG_INF
                } else {
                    0
                },
            );
            proof {
                assert forall|a: int, b: int| 0 <= a < i && 0 <= b < n implies #[trigger] v@[a * n
                    + b] == before[a * n + b] by {
                    assert(a * n + b < i * n) by (nonlinear_arith)
                        requires
                            0 <= a < i,
                            0 <= b < n,
                    ;
                    assert(a * n + b >= 0) by (nonlinear_arith)
                        requires
                            0 <= a,
                            0 <= b,
                            0 <= n,
                    ;
                }
                assert(i * n >= 0) by (nonlinear_arith);
            }
            j += 1;
        }
        proof {
            assert((i + 1) * n == i * n + n) by (nonlinear_arith);
        }
        i += 1;
    }
    v
}

/// The length of sequence `s`, from the ends of all sequences.
pub open spec fn seq_len(ends: Seq<u32>, s: int) -> int {
    if s == 0 {
        ends[0] as int
    } else {
        ends[s] - ends[s - 1]
    }
}

/// The masks of the packed sequences with these ends; none outside of a prefill.
pub fn get_attention_causal_mask(
    ends: &[u32],
    sliding_window: Option<usize>,
    is_prefill: bool,
) -> (r: Option<Vec<Vec<u32>>>)
    requires
        is_prefill ==> forall|s: int|
            0 <= s < ends@.len() ==> 0 <= #[trigger] seq_len(ends@, s) && seq_len(ends@, s)
                * seq_len(ends@, s) <= usize::MAX,
    ensures
        r is Some <==> is_prefill,
        r matches Some(masks) ==> masks@.len() == ends@.len() && forall|s: int|
            0 <= s < masks@.len() ==> is_causal_mask(
                (#[trigger] masks@[s])@,
                seq_len(ends@, s),
                sliding_window,
            ),
{
    if !is_prefill {
        return None;
    }
    let n: usize = ends.len();
    let mut masks: Vec<Vec<u32>> = Vec::new();
    let mut start: u32 = 0;
    let mut s: usize = 0;
    while s < n
        invariant
            s <= n,
            n == ends@.len(),
            start == if s == 0 {
                0
            } else {
                ends@[s - 1]
            },
            forall|x: int|
                0 <= x < ends@.len() ==> 0 <= #[trigger] seq_len(ends@, x) && seq_len(ends@, x)
                    * seq_len(ends@, x) <= usize::MAX,
            masks@.len() == s,
            forall|x: int|
                0 <= x < s ==> is_causal_mask(
                    (#[trigger] masks@[x])@,
                    seq_len(ends@, x),
                    sliding_window,
                ),
        decreases n - s,
    {
        assert(seq_len(ends@, s as int) == ends@[s as int] - start);
        let len: u32 = ends[s] - start;
        masks.push(causal_mask(len as usize, sliding_window));
        start = ends[s];
        s += 1;
    }
    Some(masks)
}

/// Without a window, a query sees itself and all earlier tokens and no others;
/// with a window, only the last `w` of them.
pub proof fn law_mask_sees_the_window(i: int, j: int, sliding_window: Option<usize>)
    ensures
        !banned(i, j, None) <==> j <= i,
        sliding_window matches Some(w) ==> (!banned(i, j, sliding_window) <==> j <= i && i - j < w),
{
}

} // verus!
