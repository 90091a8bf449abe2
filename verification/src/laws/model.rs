//! Laws of the model: passes, caches, masks, buffers and state slots.

use crate::dtype::Dtype;
use crate::models::layers::mask::{self, causal_mask, get_attention_causal_mask};
use crate::models::qwen3_5::{
    self, resolve_seq_slots, slot_source, ForwardCall, ForwardEnd, ForwardKind, ForwardPlan,
    InputMetadata, LayerMetadata, Qwen3_5DecoderLayer, Qwen3_5ForCausalLM, SlotError, SlotSource,
};
use vstd::prelude::*;

verus! {

/// Layer `i` is full attention.
pub open spec fn is_full_layer(m: Qwen3_5ForCausalLM, i: int) -> bool {
    m.layers@[i].attn is FullAttention
}

proof fn lemma_no_full_between(layers: Seq<Qwen3_5DecoderLayer>, i: int, j: int)
    requires
        0 <= i <= j <= layers.len(),
        forall|k: int| i <= k < j ==> !((#[trigger] layers[k]).attn is FullAttention),
    ensures
        qwen3_5::full_before(layers, i) == qwen3_5::full_before(layers, j),
    decreases j,
{
    if i < j {
        lemma_no_full_between(layers, i, j - 1);
    }
}

proof fn lemma_full_counts(layers: Seq<Qwen3_5DecoderLayer>, i: int)
    requires
        0 <= i,
    ensures
        0 <= qwen3_5::full_before(layers, i) <= i,
    decreases i,
{
    if i > 0 {
        lemma_full_counts(layers, i - 1);
    }
}

/// In every pass that is given caches, a prefill or not, exactly the full attention
/// layers take a cache: the first one takes the first cache, and each next one the
/// cache behind that of the full attention layer before it. A pass without caches
/// gives none to any layer.
pub proof fn law_full_layers_take_caches_in_turn(
    m: Qwen3_5ForCausalLM,
    c: ForwardCall,
    p: ForwardPlan,
    i: int,
    j: int,
)
    requires
        call_ensures(Qwen3_5ForCausalLM::plan_forward, (&m, &c), p),
        0 <= i < j < m.layers@.len(),
    ensures
        p.steps@.len() == m.layers@.len(),
        c.kv_caches is None ==> p.steps@[i].cache is None && p.steps@[j].cache is None,
        c.kv_caches is Some ==> {
            &&& p.steps@[i].cache is Some == m.layers@[i].attn is FullAttention
            &&& p.steps@[j].cache is Some == m.layers@[j].attn is FullAttention
            &&& (forall|k: int| 0 <= k < i ==> !(#[trigger] is_full_layer(m, k)))
                && is_full_layer(m, i) ==> p.steps@[i].cache == Some(0usize)
            &&& is_full_layer(m, i) && is_full_layer(m, j) && (forall|k: int|
                i < k < j ==> !(#[trigger] is_full_layer(m, k))) ==> p.steps@[j].cache->0
                == p.steps@[i].cache->0 + 1
        },
{
    assert(m.is_step(c, i, p.steps@[i]));
    assert(m.is_step(c, j, p.steps@[j]));
    assert(m.layers.len() == m.layers@.len());
    lemma_full_counts(m.layers@, i);
    lemma_full_counts(m.layers@, j);
    if forall|k: int| 0 <= k < i ==> !(#[trigger] is_full_layer(m, k)) {
        assert forall|k: int| 0 <= k < i implies !((
        #[trigger] m.layers@[k]).attn is FullAttention) by {
            assert(!is_full_layer(m, k));
        }
        lemma_no_full_between(m.layers@, 0, i);
    }
    if is_full_layer(m, i) && forall|k: int| i < k < j ==> !(#[trigger] is_full_layer(m, k)) {
        assert forall|k: int| i + 1 <= k < j implies !((#[trigger] m.layers@[k]).attn
            is FullAttention) by {
            assert(!is_full_layer(m, k));
        }
        lemma_no_full_between(m.layers@, i + 1, j);
    }
}

/// The only layer of a model takes the first cache where it is full attention and
/// caches are given, and none else.
pub proof fn law_single_layer_takes_the_first_cache(
    m: Qwen3_5ForCausalLM,
    c: ForwardCall,
    p: ForwardPlan,
)
    requires
        call_ensures(Qwen3_5ForCausalLM::plan_forward, (&m, &c), p),
        m.layers@.len() == 1,
    ensures
        p.steps@.len() == 1,
        p.steps@[0].cache == if c.kv_caches is Some && m.layers@[0].attn is FullAttention {
            Some(0usize)
        } else {
            None
        },
{
    assert(m.is_step(c, 0, p.steps@[0]));
    assert(qwen3_5::full_before(m.layers@, 0) == 0);
}

// ---- Masks ----

/// A mask lets a query see itself and what stands before it, within the window where
/// there is one, and nothing else: it adds nothing there and minus infinity elsewhere.
pub proof fn law_masks_are_causal(
    n: usize,
    sliding_window: Option<usize>,
    m: Vec<u32>,
    i: int,
    j: int,
)
    requires
        call_ensures(causal_mask, (n, sliding_window), m),
        0 <= i < n,
        0 <= j < n,
    ensures
        m@.len() == n * n,
        j > i ==> m@[i * n + j] == 0xff80_0000u32,
        j == i && sliding_window != Some(0usize) ==> m@[i * n + j] == 0,
        j <= i && sliding_window is None ==> m@[i * n + j] == 0,
        sliding_window matches Some(w) ==> {
            &&& j <= i && i < j + w ==> m@[i * n + j] == 0
            &&& i >= j + w ==> m@[i * n + j] == 0xff80_0000u32
        },
{
}

/// A prefill has one square mask for each sequence, as long as the sequence is: from
/// the end of the one before to its own end. Within it a query sees what stands before
/// it and itself, within the window. No other pass has masks.
pub proof fn law_sequences_get_their_masks(
    ends: &[u32],
    sliding_window: Option<usize>,
    is_prefill: bool,
    r: Option<Vec<Vec<u32>>>,
    s: int,
    start: int,
    i: int,
    j: int,
)
    requires
        call_ensures(get_attention_causal_mask, (ends, sliding_window, is_prefill), r),
        0 <= s < ends@.len(),
        start == if s > 0 {
            ends@[s - 1] as int
        } else {
            0
        },
        0 <= i < ends@[s] - start,
        0 <= j < ends@[s] - start,
    ensures
        !is_prefill ==> r is None,
        is_prefill ==> {
            &&& r matches Some(masks)
            &&& masks@.len() == ends@.len()
            &&& masks@[s]@.len() == (ends@[s] - start) * (ends@[s] - start)
            &&& masks@[s]@[i * (ends@[s] - start) + j] == if j <= i && (sliding_window is None || i
                - j < sliding_window->0) {
                0u32
            } else {
                0xff80_0000u32
            }
        },
{
    let n = mask::seq_len(ends@, s);
    if is_prefill {
        assert(mask::is_causal_mask((r->0)@[s]@, n, sliding_window));
        assert((r->0)@[s]@[i * n + j] == (r->0)@[s]@[i * n + j]);
    }
}

/// A pass masks a prefill as its sequences are, with the window of the model.
pub proof fn law_passes_are_masked(
    m: Qwen3_5ForCausalLM,
    c: ForwardCall,
    p: ForwardPlan,
    s: int,
    start: int,
    i: int,
    j: int,
)
    requires
        call_ensures(Qwen3_5ForCausalLM::plan_forward, (&m, &c), p),
        0 <= s < c.seqlens@.len(),
        start == if s > 0 {
            c.seqlens@[s - 1] as u32 as int
        } else {
            0
        },
        0 <= i < (c.seqlens@[s] as u32) - start,
        0 <= j < (c.seqlens@[s] as u32) - start,
    ensures
        p.masks is Some == c.is_prefill,
        p.masks matches Some(masks) ==> {
            let n = (c.seqlens@[s] as u32) - start;
            &&& masks@.len() == c.seqlens@.len()
            &&& masks@[s]@.len() == n * n
            &&& masks@[s]@[i * n + j] == if j <= i && (m.sliding_window is None || i - j
                < m.sliding_window->0) {
                0u32
            } else {
                0xff80_0000u32
            }
        },
{
    let ends = qwen3_5::short(c.seqlens@);
    let n = mask::seq_len(ends, s);
    if p.masks is Some {
        assert(mask::is_causal_mask((p.masks->0)@[s]@, n, m.sliding_window));
        assert((p.masks->0)@[s]@[i * n + j] == (p.masks->0)@[s]@[i * n + j]);
    }
}

// ---- What goes on after the layers ----

/// Where logits are asked for, or layers are collected, and sequences are given, the
/// row right before the end of each sequence goes on, in their order. Else every row
/// does.
pub proof fn law_last_rows_go_on(
    m: Qwen3_5ForCausalLM,
    c: ForwardCall,
    p: ForwardPlan,
    s: int,
)
    requires
        call_ensures(Qwen3_5ForCausalLM::plan_forward, (&m, &c), p),
        0 <= s < c.seqlens@.len(),
        1 <= c.seqlens@[s] as u32,
    ensures
        p.select is None == (c.return_hidden && c.collect is None),
        p.select matches Some(rows) ==> rows@.len() == c.seqlens@.len() && rows@[s] + 1
            == c.seqlens@[s] as u32,
{
}

/// Without sequences every row goes on.
pub proof fn law_all_rows_go_on_without_sequences(
    m: Qwen3_5ForCausalLM,
    c: ForwardCall,
    p: ForwardPlan,
)
    requires
        call_ensures(Qwen3_5ForCausalLM::plan_forward, (&m, &c), p),
        c.seqlens@.len() == 0,
    ensures
        p.select is None,
{
}

/// Hidden states come out where they are asked for and nothing is collected, else
/// logits: the head takes the type of the model and gives singles, and in a quantized
/// single file it takes and gives what comes.
pub proof fn law_passes_end_as_asked(m: Qwen3_5ForCausalLM, c: ForwardCall, p: ForwardPlan)
    requires
        call_ensures(Qwen3_5ForCausalLM::plan_forward, (&m, &c), p),
    ensures
        p.end is Hidden == (c.return_hidden && c.collect is None),
        p.end matches ForwardEnd::Logits(t) ==> {
            &&& m.is_qvar_builder ==> t.before is None && t.after is None
            &&& !m.is_qvar_builder ==> t.before == Some(m.dtype) && t.after == Some(Dtype::F32)
        },
{
}

/// The head is applied to hidden states as at the end of a pass for logits.
pub proof fn law_head_is_applied_alike(
    m: Qwen3_5ForCausalLM,
    c: ForwardCall,
    p: ForwardPlan,
    t: qwen3_5::HeadTypes,
)
    requires
        call_ensures(Qwen3_5ForCausalLM::plan_forward, (&m, &c), p),
        call_ensures(Qwen3_5ForCausalLM::forward_lm_head, (&m,), t),
    ensures
        p.end is Logits ==> p.end == ForwardEnd::Logits(t),
        m.is_qvar_builder ==> t.before is None && t.after is None,
        !m.is_qvar_builder ==> t.before == Some(m.dtype) && t.after == Some(Dtype::F32),
{
}

/// The last hidden states are copied exactly in a pass for logits that collects
/// nothing, where there is a buffer with a row for each state that goes on.
pub proof fn law_last_states_are_copied(m: Qwen3_5ForCausalLM, c: ForwardCall, p: ForwardPlan)
    requires
        call_ensures(Qwen3_5ForCausalLM::plan_forward, (&m, &c), p),
        m.hidden_size > 0,
    ensures
        p.copy_to_mtp ==> !c.return_hidden && c.collect is None && m.mtp_hidden_buffer is Some,
        m.mtp_hidden_buffer is None ==> !p.copy_to_mtp,
        m.mtp_hidden_buffer matches Some(rows) ==> {
            &&& c.seqlens@.len() > 0 && !c.return_hidden && c.collect is None ==> p.copy_to_mtp == (
            c.seqlens@.len() <= rows)
            &&& c.seqlens@.len() == 0 && !c.return_hidden && c.collect is None ==> p.copy_to_mtp
                == (c.rows <= rows)
        },
{
    if m.mtp_hidden_buffer is Some {
        let rows = m.mtp_hidden_buffer->0 as int;
        let h = m.hidden_size as int;
        let left = Qwen3_5ForCausalLM::rows_left(c);
        assert((left * h <= rows * h) == (left <= rows)) by (nonlinear_arith)
            requires
                h > 0,
        ;
    }
}

// ---- What happens at a layer ----

/// The output of a layer is collected exactly where the layer is asked for, and gets
/// visual embeddings exactly where there is one for its number. Tokens are embedded
/// unless they come embedded, and the input of the first layer is collected with the
/// layers.
pub proof fn law_layers_give_what_is_asked(
    m: Qwen3_5ForCausalLM,
    c: ForwardCall,
    p: ForwardPlan,
    i: usize,
)
    requires
        call_ensures(Qwen3_5ForCausalLM::plan_forward, (&m, &c), p),
        i < m.layers@.len(),
    ensures
        p.embeds != c.embeded_inputs,
        p.collect_input == c.collect is Some,
        c.collect is None ==> !p.steps@[i as int].collect,
        c.collect matches Some(ids) ==> p.steps@[i as int].collect == ids@.contains(i),
        c.deepstacks is None ==> !p.steps@[i as int].deepstack,
        c.deepstacks matches Some(n) ==> p.steps@[i as int].deepstack == (i < n),
{
    assert(m.is_step(c, i as int, p.steps@[i as int]));
}

proof fn lemma_verify_targets(
    ids: Seq<usize>,
    buffers: Option<Vec<usize>>,
    layer: usize,
    rows: usize,
    n: int,
)
    requires
        0 <= n <= ids.len() <= usize::MAX,
    ensures
        ({
            let t = qwen3_5::verify_targets(ids, buffers, layer, rows, n);
            &&& forall|x: int|
                0 <= x < t.len() ==> (#[trigger] t[x]) < n && ids[t[x] as int] == layer
                    && buffers is Some && t[x] < (buffers->0)@.len() && rows <= (buffers->0)@[t[x] as int]
            &&& forall|x: int, y: int| 0 <= x < y < t.len() ==> #[trigger] t[x] < #[trigger] t[y]
            &&& forall|b: int|
                0 <= b < n && #[trigger] ids[b] == layer && buffers is Some && b < (
                buffers->0)@.len() && rows <= (buffers->0)@[b] ==> t.contains(b as usize)
        }),
    decreases n,
{
    if n > 0 {
        lemma_verify_targets(ids, buffers, layer, rows, n - 1);
        let rest = qwen3_5::verify_targets(ids, buffers, layer, rows, n - 1);
        let t = qwen3_5::verify_targets(ids, buffers, layer, rows, n);
        assert forall|b: int|
            0 <= b < n && #[trigger] ids[b] == layer && buffers is Some && b < (buffers->0)@.len()
                && rows <= (buffers->0)@[b] implies t.contains(b as usize) by {
            if b < n - 1 {
                assert(rest.contains(b as usize));
                let x = choose|x: int| 0 <= x < rest.len() && rest[x] == b as usize;
                assert(t[x] == b as usize);
            } else {
                assert(t[rest.len() as int] == b as usize);
            }
        }
    }
}

/// In a verification the output of a layer goes into exactly the buffers whose target
/// the layer is and that hold its rows, each one once and in their order; in no other
/// pass into any.
pub proof fn law_outputs_go_to_their_buffers(
    m: Qwen3_5ForCausalLM,
    c: ForwardCall,
    p: ForwardPlan,
    i: usize,
    b: usize,
)
    requires
        call_ensures(Qwen3_5ForCausalLM::plan_forward, (&m, &c), p),
        i < m.layers@.len(),
    ensures
        ({
            let to = p.steps@[i as int].verify_buffers@;
            let ids = m.dflash_target_layer_ids@;
            &&& !c.is_mtp_verify ==> to.len() == 0
            &&& forall|x: int, y: int| 0 <= x < y < to.len() ==> #[trigger] to[x] < #[trigger] to[y]
            &&& c.is_mtp_verify ==> to.contains(b) == (b < ids.len() && ids[b as int] == i && (
            m.dflash_verify_hidden_buffers matches Some(bs) && b < bs@.len() && c.rows
                <= bs@[b as int]))
        }),
{
    assert(m.is_step(c, i as int, p.steps@[i as int]));
    let ids = m.dflash_target_layer_ids@;
    assert(m.dflash_target_layer_ids.len() == ids.len());
    lemma_verify_targets(
        ids,
        m.dflash_verify_hidden_buffers,
        i,
        c.rows,
        ids.len() as int,
    );
    if b < ids.len() {
        assert(ids[b as int] == ids[b as int]);
    }
}

/// The buffers of a layer are named alike when they are asked for on their own.
pub proof fn law_buffers_of_a_layer(
    m: Qwen3_5ForCausalLM,
    layer: usize,
    rows: usize,
    to: Vec<usize>,
    b: usize,
)
    requires
        call_ensures(Qwen3_5ForCausalLM::copy_into_verify_buffer, (&m, layer, rows), to),
    ensures
        forall|x: int, y: int| 0 <= x < y < to@.len() ==> #[trigger] to@[x] < #[trigger] to@[y],
        to@.contains(b) == (b < m.dflash_target_layer_ids@.len() && m.dflash_target_layer_ids@[b as int]
            == layer && (m.dflash_verify_hidden_buffers matches Some(bs) && b < bs@.len() && rows
            <= bs@[b as int])),
{
    let ids = m.dflash_target_layer_ids@;
    assert(m.dflash_target_layer_ids.len() == ids.len());
    lemma_verify_targets(ids, m.dflash_verify_hidden_buffers, layer, rows, ids.len() as int);
    if b < ids.len() {
        assert(ids[b as int] == ids[b as int]);
    }
}

/// An entry asks for what it is named after, and hands all else on.
pub proof fn law_entries_ask_for_their_pass<'a>(
    kind: ForwardKind<'a>,
    seqlens: &'a [usize],
    is_prefill: bool,
    is_mtp_verify: bool,
    rows: usize,
    kv_caches: Option<usize>,
    embeded_inputs: bool,
    c: ForwardCall<'a>,
)
    requires
        call_ensures(
            ForwardCall::<'a>::new,
            (kind, seqlens, is_prefill, is_mtp_verify, rows, kv_caches, embeded_inputs),
            c,
        ),
    ensures
        c.seqlens@ == seqlens@ && c.is_prefill == is_prefill && c.is_mtp_verify == is_mtp_verify,
        c.rows == rows && c.kv_caches == kv_caches && c.embeded_inputs == embeded_inputs,
        kind is Logits ==> !c.return_hidden && c.collect is None && c.deepstacks is None,
        kind is Embedding ==> c.return_hidden && c.collect is None && c.deepstacks is None,
        kind is WithHidden ==> c.return_hidden && c.collect is None && c.deepstacks is None,
        kind matches ForwardKind::CollectingLayers(ids) ==> !c.return_hidden && c.collect == Some(
            ids,
        ) && c.deepstacks is None,
        kind matches ForwardKind::WithDeepstack(n) ==> !c.return_hidden && c.collect is None
            && c.deepstacks == n,
{
}

// ---- Layers and counts ----

/// A layer goes through its own kind of attention, between its norm and the sum with
/// its input; then through its norm and feed forward part, and the sum with that.
pub proof fn law_layers_attend_in_their_way(
    layer: Qwen3_5DecoderLayer,
    steps: Vec<qwen3_5::BlockStep>,
)
    requires
        call_ensures(Qwen3_5DecoderLayer::plan_forward, (&layer,), steps),
    ensures
        steps@.len() == 6,
        steps@[0] is InputNorm,
        steps@[1] is FullAttention == layer.attn is FullAttention,
        steps@[1] is LinearAttention == layer.attn is LinearAttention,
        steps@[2] is AddInput && steps@[3] is PostAttentionNorm,
        steps@[4] is FeedForward && steps@[5] is AddAttended,
{
}

proof fn lemma_full_is_filter(layers: Seq<Qwen3_5DecoderLayer>, n: int)
    requires
        0 <= n <= layers.len(),
    ensures
        qwen3_5::full_before(layers, n) == layers.take(n).filter(
            |l: Qwen3_5DecoderLayer| l.attn is FullAttention,
        ).len(),
    decreases n,
{
    reveal(Seq::filter);
    if n > 0 {
        lemma_full_is_filter(layers, n - 1);
        assert(layers.take(n).drop_last() =~= layers.take(n - 1));
        assert(layers.take(n).last() == layers[n - 1]);
    }
}

/// The two counts are those of the layers of each kind: they make up all layers.
pub proof fn law_layers_are_counted_by_kind(m: Qwen3_5ForCausalLM, full: usize, linear: usize)
    requires
        call_ensures(Qwen3_5ForCausalLM::full_attention_count, (&m,), full),
        call_ensures(Qwen3_5ForCausalLM::gdn_layer_count, (&m,), linear),
    ensures
        full == m.layers@.filter(|l: Qwen3_5DecoderLayer| l.attn is FullAttention).len(),
        full + linear == m.layers@.len(),
{
    lemma_full_is_filter(m.layers@, m.layers@.len() as int);
    assert(m.layers@.take(m.layers@.len() as int) =~= m.layers@);
}

// ---- Metadata and slots ----

/// The layers read what is given. A prefill of sequences has bounds: they start at
/// zero, each next one lies further by the length of its sequence, and there is one
/// more than sequences. Nothing else has bounds.
pub proof fn law_bounds_step_by_lengths(
    m: InputMetadata,
    v: LayerMetadata,
    i: int,
)
    requires
        call_ensures(InputMetadata::vendor, (&m,), v),
        m.seqlens is Some,
        0 <= i < (m.seqlens->0)@.len(),
    ensures
        v.seqlens@ == (m.seqlens->0)@ && v.context_lens@.len() == 0,
        v.is_prefill == m.is_prefill && v.is_mtp_verify == m.is_mtp_verify,
        v.decode_ptrs == m.decode_ptrs,
        v.cu_seqlens_q is Some == m.is_prefill,
        v.cu_seqlens_q matches Some(b) ==> {
            &&& b@.len() == (m.seqlens->0)@.len() + 1
            &&& b@[0] == 0
            &&& b@[i + 1] == b@[i] + ((m.seqlens->0)@[i] as u32)
        },
{
    if v.cu_seqlens_q is Some {
        let b = (v.cu_seqlens_q->0)@;
        assert(b[0] == qwen3_5::bound(m.lens(), 0));
        assert(b[i] == qwen3_5::bound(m.lens(), i));
        assert(b[i + 1] == qwen3_5::bound(m.lens(), i + 1));
    }
}

/// Without sequences there are no bounds, and no lengths.
pub proof fn law_no_bounds_without_sequences(m: InputMetadata, v: LayerMetadata)
    requires
        call_ensures(InputMetadata::vendor, (&m,), v),
        m.seqlens is None || (m.seqlens->0)@.len() == 0,
    ensures
        v.cu_seqlens_q is None && v.seqlens@.len() == 0 && v.context_lens@.len() == 0,
        v.is_prefill == m.is_prefill && v.is_mtp_verify == m.is_mtp_verify,
        v.decode_ptrs == m.decode_ptrs,
{
}

/// A given mapping is used, and sequence ids only without one. A mapping holds 64 bit
/// integers and at least one slot, and for decoding one per token; ids have to be there.
pub proof fn law_slots_come_from_one_source(
    m: InputMetadata,
    tokens: usize,
    r: Result<SlotSource, SlotError>,
)
    requires
        call_ensures(slot_source, (&m, tokens), r),
    ensures
        m.mamba_slot_mapping matches Some(g) ==> {
            &&& r matches Ok(s) ==> s is Mapping
            &&& r is Ok == (g.dtype is I64 && g.len > 0 && (m.is_prefill || g.len == tokens))
            &&& !(g.dtype is I64) ==> r == Err::<SlotSource, SlotError>(
                SlotError::MappingType { got: g.dtype },
            )
            &&& g.dtype is I64 && g.len == 0 ==> r == Err::<SlotSource, SlotError>(
                SlotError::EmptyMapping,
            )
            &&& g.dtype is I64 && g.len > 0 && r is Err ==> r == Err::<SlotSource, SlotError>(
                SlotError::MappingMismatch { slots: g.len, tokens },
            )
        },
        m.mamba_slot_mapping is None ==> {
            &&& r matches Ok(s) ==> s is Sequences
            &&& m.sequence_ids is None ==> r == Err::<SlotSource, SlotError>(
                SlotError::NoSequenceIds,
            )
            &&& m.sequence_ids matches Some(ids) ==> r is Ok == (ids@.len() > 0)
            &&& m.sequence_ids is Some && r is Err ==> r == Err::<SlotSource, SlotError>(
                SlotError::EmptySequenceIds,
            )
        },
{
}

/// The slots of the cache are handed on one by one where there is one at least and,
/// for decoding, one per token.
pub proof fn law_slots_are_handed_on(
    is_prefill: bool,
    slots: &[usize],
    tokens: usize,
    r: Result<Vec<u32>, SlotError>,
    i: int,
)
    requires
        call_ensures(resolve_seq_slots, (is_prefill, slots, tokens), r),
        0 <= i < slots@.len(),
        slots@[i] <= u32::MAX,
    ensures
        r is Ok == (is_prefill || slots@.len() == tokens),
        r matches Ok(v) ==> v@.len() == slots@.len() && v@[i] == slots@[i],
        r matches Err(e) ==> e == (SlotError::SlotMismatch {
            slots: slots@.len() as usize,
            tokens,
        }),
{
}

/// Without slots there is an error.
pub proof fn law_no_slots_is_an_error(
    is_prefill: bool,
    slots: &[usize],
    tokens: usize,
    r: Result<Vec<u32>, SlotError>,
)
    requires
        call_ensures(resolve_seq_slots, (is_prefill, slots, tokens), r),
        slots@.len() == 0,
    ensures
        r == Err::<Vec<u32>, SlotError>(SlotError::NoSlots),
{
}

} // verus!
