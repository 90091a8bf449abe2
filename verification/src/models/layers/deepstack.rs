//! Visual embeddings added to the hidden states at marked positions.

use vstd::prelude::*;

verus! {

/// Embeddings that do not fit the marked positions.
#[derive(Debug, Clone, Copy, PartialEq, Eq, Structural)]
pub enum DeepStackError {
    /// Embeddings without a marked position.
    EmptyMask { embeds: usize },
    /// Another number of embeddings than of marked positions.
    Mismatch { embeds: usize, masked: usize },
}

/// The marked positions, ascending.
pub open spec fn marked(mask: Seq<bool>) -> Seq<int>
    decreases mask.len(),
{
    if mask.len() == 0 {
        Seq::empty()
    } else if mask.last() {
        marked(mask.drop_last()).push(mask.len() - 1)
    } else {
        marked(mask.drop_last())
    }
}

/// Where each visual embedding is added: row `r` goes to the `r`th marked position.
/// Without marks and embeddings the hidden states stay as they are.
pub fn deepstack_positions(mask: &[bool], embeds: usize) -> (r: Result<Vec<usize>, DeepStackError>)
    ensures
        ({
            let m = marked(mask@);
            if m.len() == 0 && embeds != 0 {
                r matches Err(e) && e == (DeepStackError::EmptyMask { embeds })
            } else if m.len() != embeds {
                r matches Err(e) && e == (DeepStackError::Mismatch {
                    embeds,
                    masked: m.len() as usize,
                })
            } else {
                r matches Ok(p) && p@.len() == m.len() && forall|i: int|
                    0 <= i < m.len() ==> #[trigger] p@[i] == m[i]
            }
        }),
{
    let n: usize = mask.len();
    let mut p: Vec<usize> = Vec::new();
    let mut i: usize = 0;
    assert(mask@.take(0) =~= Seq::empty());
    while i < n
        invariant
            i <= n,
            n == mask@.len(),
            p@.len() == marked(mask@.take(i as int)).len(),
            forall|j: int| 0 <= j < p@.len() ==> #[trigger] p@[j] == marked(mask@.take(i as int))[j],
        decreases n - i,
    {
        assert(mask@.take(i as int + 1).drop_last() =~= mask@.take(i as int));
        if mask[i] {
            p.push(i);
        }
        i += 1;
    }
    assert(mask@.take(n as int) =~= mask@);
    let masked: usize = p.len();
    if masked == 0 && embeds != 0 {
        return Err(DeepStackError::EmptyMask { embeds });
    }
    if embeds != masked {
        return Err(DeepStackError::Mismatch { embeds, masked });
    }
    Ok(p)
}

/// The marked positions are ascending, and they are the marked ones.
pub proof fn law_marked_positions(mask: Seq<bool>)
    ensures
        forall|x: int|
            0 <= x < marked(mask).len() ==> 0 <= #[trigger] marked(mask)[x] < mask.len()
                && mask[marked(mask)[x]],
        forall|x: int, y: int|
            0 <= x < y < marked(mask).len() ==> #[trigger] marked(mask)[x] < #[trigger] marked(
                mask,
            )[y],
        forall|p: int| 0 <= p < mask.len() && mask[p] ==> #[trigger] marked(mask).contains(p),
    decreases mask.len(),
{
    if mask.len() > 0 {
        let rest = mask.drop_last();
        law_marked_positions(rest);
        let inner = marked(rest);
        assert forall|x: int| 0 <= x < marked(mask).len() implies 0 <= #[trigger] marked(mask)[x]
            < mask.len() && mask[marked(mask)[x]] by {
            if x < inner.len() {
                assert(marked(mask)[x] == inner[x]);
                assert(rest[inner[x]] == mask[inner[x]]);
            }
        }
        assert forall|x: int, y: int| 0 <= x < y < marked(mask).len() implies #[trigger] marked(
            mask,
        )[x] < #[trigger] marked(mask)[y] by {
            assert(marked(mask)[x] == inner[x]);
            if y < inner.len() {
                assert(marked(mask)[y] == inner[y]);
            }
        }
        assert forall|p: int| 0 <= p < mask.len() && mask[p] implies #[trigger] marked(
            mask,
        ).contains(p) by {
            if p < mask.len() - 1 {
                assert(rest[p]);
                let x = choose|x: int| 0 <= x < inner.len() && inner[x] == p;
                assert(inner.contains(p));
                assert(marked(mask)[x] == p);
            } else {
                assert(marked(mask)[inner.len() as int] == p);
            }
        }
    }
}

} // verus!
