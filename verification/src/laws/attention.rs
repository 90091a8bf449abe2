//! Laws of attention layers: passes and cuts.

use crate::dtype::Dtype;
use crate::models::layers::attention::{
    self, normalize_sharded_1d, normalize_sharded_2d, Attention, AttentionCall, AttentionError,
    AttentionStep,
};
use crate::models::layers::linear::Slice;
use crate::models::layers::tensor::Shard;
use vstd::prelude::*;

verus! {

// ---- Passes ----

/// The place of a step among the others.
pub open spec fn stage(step: AttentionStep) -> int {
    match step {
        AttentionStep::CutGate(_) => 0,
        AttentionStep::Shape { .. } => 1,
        AttentionStep::PromoteQk => 2,
        AttentionStep::NormQk { .. } => 3,
        AttentionStep::Rotate => 4,
        AttentionStep::UnitQk { .. } => 5,
        AttentionStep::ConvertQk(_) => 6,
        AttentionStep::ConvertV(_) => 7,
        AttentionStep::UnitV { .. } => 8,
        AttentionStep::ScaleByPosition(_) => 9,
        AttentionStep::ScaleGiven(_) => 10,
        AttentionStep::Attend => 11,
        AttentionStep::RepeatValues(_) => 12,
        AttentionStep::TakeValues => 13,
        AttentionStep::Flatten(_) => 14,
        AttentionStep::ConvertGate => 15,
        AttentionStep::MultiplyGate => 16,
        AttentionStep::ConvertOutput(_) => 17,
        AttentionStep::ProjectOutput => 18,
    }
}

/// Every step comes behind those of earlier stages, and no stage comes twice.
pub open spec fn in_order(steps: Seq<AttentionStep>) -> bool {
    forall|x: int, y: int|
        0 <= x < y < steps.len() ==> stage(#[trigger] steps[x]) < stage(#[trigger] steps[y])
}

/// Steps in order, of stages from `lo` up to `hi`.
spec fn within(steps: Seq<AttentionStep>, lo: int, hi: int) -> bool {
    &&& in_order(steps)
    &&& forall|x: int| 0 <= x < steps.len() ==> lo <= stage(#[trigger] steps[x]) < hi
}

proof fn lemma_within_add(
    a: Seq<AttentionStep>,
    b: Seq<AttentionStep>,
    lo: int,
    mid: int,
    hi: int,
)
    requires
        within(a, lo, mid),
        within(b, mid, hi),
        lo <= mid <= hi,
    ensures
        within(a + b, lo, hi),
{
    let s = a + b;
    assert forall|x: int| 0 <= x < s.len() implies lo <= stage(#[trigger] s[x]) < hi by {
        if x < a.len() {
            assert(s[x] == a[x]);
        } else {
            assert(s[x] == b[x - a.len()]);
        }
    }
    assert forall|x: int, y: int| 0 <= x < y < s.len() implies stage(#[trigger] s[x]) < stage(
        #[trigger] s[y],
    ) by {
        if y < a.len() {
            assert(s[x] == a[x] && s[y] == a[y]);
        } else if x < a.len() {
            assert(s[x] == a[x] && s[y] == b[y - a.len()]);
        } else {
            assert(s[x] == b[x - a.len()] && s[y] == b[y - a.len()]);
        }
    }
}

proof fn lemma_contains_add(a: Seq<AttentionStep>, b: Seq<AttentionStep>, step: AttentionStep)
    ensures
        (a + b).contains(step) == (a.contains(step) || b.contains(step)),
{
    let s = a + b;
    if a.contains(step) {
        let x = choose|x: int| 0 <= x < a.len() && a[x] == step;
        assert(s[x] == step);
    }
    if b.contains(step) {
        let x = choose|x: int| 0 <= x < b.len() && b[x] == step;
        assert(s[a.len() + x] == step);
    }
    if s.contains(step) {
        let x = choose|x: int| 0 <= x < s.len() && s[x] == step;
        if x < a.len() {
            assert(a[x] == step);
        } else {
            assert(b[x - a.len()] == step);
        }
    }
}

proof fn lemma_single(one: AttentionStep, step: AttentionStep)
    ensures
        seq![one].contains(step) == (step == one),
        !Seq::<AttentionStep>::empty().contains(step),
        within(seq![one], stage(one), stage(one) + 1),
{
    if step == one {
        assert(seq![one][0] == step);
    }
}

/// The stages of steps, one by one.
pub open spec fn stages(steps: Seq<AttentionStep>) -> Seq<int> {
    Seq::new(steps.len(), |i: int| stage(steps[i]))
}

proof fn lemma_stages_add(a: Seq<AttentionStep>, b: Seq<AttentionStep>)
    ensures
        stages(a + b) == stages(a) + stages(b),
{
    assert(stages(a + b) =~= stages(a) + stages(b));
}

/// Whether a step before the rotation is due.
pub open spec fn due_before(a: Attention, tokens: usize, step: AttentionStep) -> bool {
    match step {
        AttentionStep::CutGate(g) => {
            &&& a.attn_output_gate
            &&& g.shape.0 == tokens && g.shape.1 == a.num_heads
            &&& g.shape.2 == g.query.len + g.gate.len
            &&& g.query.start == 0 && g.query.len == a.head_dim
            &&& g.gate.start == g.query.len && g.gate.len == a.head_dim
            &&& g.flat.0 == tokens && g.flat.1 == a.num_heads * a.head_dim
        },
        AttentionStep::Shape { q, kv } => {
            &&& q == (tokens, a.num_heads, a.head_dim)
            &&& kv == (tokens, a.num_kv_heads, a.head_dim)
        },
        AttentionStep::PromoteQk => a.promote_qk_to_f32,
        AttentionStep::NormQk { q_rows, k_rows, q, kv } => {
            &&& q == (tokens, a.num_heads, a.head_dim)
            &&& kv == (tokens, a.num_kv_heads, a.head_dim)
            &&& a.qk_norm is PerHead ==> q_rows.0 == tokens * a.num_heads && k_rows.0 == tokens
                * a.num_kv_heads && q_rows.1 == a.head_dim && k_rows.1 == a.head_dim
            &&& a.qk_norm is FullDim ==> q_rows.0 == tokens && k_rows.0 == tokens && q_rows.1
                == a.num_heads * a.head_dim && k_rows.1 == a.num_kv_heads * a.head_dim
            &&& !(a.qk_norm is Absent)
        },
        _ => false,
    }
}

/// Whether a step between the rotation and the output of the heads is due.
pub open spec fn due_between(a: Attention, c: AttentionCall, step: AttentionStep) -> bool {
    match step {
        AttentionStep::UnitQk { eps } => a.qk_l2_norm && eps == 0x3ee4_f8b5_88e3_68f1u64,
        AttentionStep::ConvertQk(to) => to == a.dtype,
        AttentionStep::ConvertV(to) => to == a.dtype,
        AttentionStep::UnitV { eps } => a.v_norm_eps == Some(eps),
        AttentionStep::ScaleByPosition(shape) => {
            &&& c.rotary matches Some(r) && r.original_max_position && r.scaling_beta
            &&& shape == (c.tokens, 1usize, 1usize)
        },
        AttentionStep::ScaleGiven(shape) => c.q_scale && shape == (c.tokens, 1usize, 1usize),
        AttentionStep::Attend => true,
        _ => false,
    }
}

/// Whether a step from the output of the heads on is due.
pub open spec fn due_after(
    a: Attention,
    tokens: usize,
    xs_type: Dtype,
    step: AttentionStep,
) -> bool {
    match step {
        AttentionStep::Flatten(shape) => shape.0 == tokens && shape.1 == a.num_heads * a.head_dim,
        AttentionStep::ConvertGate => a.attn_output_gate,
        AttentionStep::MultiplyGate => a.attn_output_gate,
        AttentionStep::ConvertOutput(to) => !a.is_qvar_builder && to == xs_type,
        AttentionStep::ProjectOutput => true,
        _ => false,
    }
}

proof fn lemma_before(a: Attention, tokens: usize, step: AttentionStep)
    requires
        a.fits(tokens),
    ensures
        within(a.prepare_steps(tokens), 0, 4),
        a.prepare_steps(tokens).contains(step) == due_before(a, tokens, step),
{
    assert(a.num_heads * a.head_dim >= 0 && a.num_kv_heads * a.head_dim >= 0 && tokens
        * a.num_heads >= 0 && tokens * a.num_kv_heads >= 0) by (nonlinear_arith);
    let gate = AttentionStep::CutGate(a.gate_split(tokens));
    let shape = AttentionStep::Shape {
        q: (tokens, a.num_heads, a.head_dim),
        kv: (tokens, a.num_kv_heads, a.head_dim),
    };
    let p0 = attention::when(a.attn_output_gate, gate);
    let p1 = seq![shape];
    let p2 = attention::when(a.promote_qk_to_f32, AttentionStep::PromoteQk);
    let p3 = a.norm_step(tokens);
    lemma_single(gate, step);
    lemma_single(shape, step);
    lemma_single(AttentionStep::PromoteQk, step);
    if p3.len() > 0 {
        assert(p3 =~= seq![p3[0]]);
        lemma_single(p3[0], step);
    }
    lemma_within_add(p0, p1, 0, 1, 2);
    lemma_within_add(p0 + p1, p2, 0, 2, 3);
    lemma_within_add(p0 + p1 + p2, p3, 0, 3, 4);
    lemma_contains_add(p0, p1, step);
    lemma_contains_add(p0 + p1, p2, step);
    lemma_contains_add(p0 + p1 + p2, p3, step);
    assert(a.prepare_steps(tokens) == p0 + p1 + p2 + p3);
}

proof fn lemma_between(a: Attention, c: AttentionCall, step: AttentionStep)
    ensures
        within(a.attend_steps(c), 5, 12),
        a.attend_steps(c).contains(step) == due_between(a, c, step),
{
    let column = (c.tokens, 1usize, 1usize);
    let by_position = c.rotary matches Some(r) && r.original_max_position && r.scaling_beta;
    let unit = AttentionStep::UnitQk { eps: attention::HEAD_EPS };
    let (qk, v) = (AttentionStep::ConvertQk(a.dtype), AttentionStep::ConvertV(a.dtype));
    let p0 = attention::when(a.qk_l2_norm, unit);
    let p1 = seq![qk, v];
    let p2 = match a.v_norm_eps {
        Some(eps) => seq![AttentionStep::UnitV { eps }],
        None => Seq::empty(),
    };
    let p3 = attention::when(by_position, AttentionStep::ScaleByPosition(column));
    let p4 = attention::when(c.q_scale, AttentionStep::ScaleGiven(column));
    let p5 = seq![AttentionStep::Attend];
    lemma_single(unit, step);
    lemma_single(qk, step);
    lemma_single(v, step);
    assert(p1 =~= seq![qk] + seq![v]);
    lemma_within_add(seq![qk], seq![v], 6, 7, 8);
    lemma_contains_add(seq![qk], seq![v], step);
    if a.v_norm_eps is Some {
        lemma_single(AttentionStep::UnitV { eps: a.v_norm_eps->0 }, step);
    }
    lemma_single(AttentionStep::ScaleByPosition(column), step);
    lemma_single(AttentionStep::ScaleGiven(column), step);
    lemma_single(AttentionStep::Attend, step);
    lemma_within_add(p0, p1, 5, 6, 8);
    lemma_within_add(p0 + p1, p2, 5, 8, 9);
    lemma_within_add(p0 + p1 + p2, p3, 5, 9, 10);
    lemma_within_add(p0 + p1 + p2 + p3, p4, 5, 10, 11);
    lemma_within_add(p0 + p1 + p2 + p3 + p4, p5, 5, 11, 12);
    lemma_contains_add(p0, p1, step);
    lemma_contains_add(p0 + p1, p2, step);
    lemma_contains_add(p0 + p1 + p2, p3, step);
    lemma_contains_add(p0 + p1 + p2 + p3, p4, step);
    lemma_contains_add(p0 + p1 + p2 + p3 + p4, p5, step);
    assert(a.attend_steps(c) == p0 + p1 + p2 + p3 + p4 + p5);
}

proof fn lemma_after(a: Attention, tokens: usize, xs_type: Dtype, step: AttentionStep)
    requires
        a.fits(tokens),
    ensures
        within(a.output_steps(tokens, xs_type), 14, 19),
        a.output_steps(tokens, xs_type).contains(step) == due_after(a, tokens, xs_type, step),
{
    assert(a.num_heads * a.head_dim >= 0) by (nonlinear_arith);
    let flat = AttentionStep::Flatten((tokens, a.width()));
    let p0 = seq![flat];
    let p1 = attention::when(a.attn_output_gate, AttentionStep::ConvertGate);
    let p2 = attention::when(a.attn_output_gate, AttentionStep::MultiplyGate);
    let p3 = attention::when(!a.is_qvar_builder, AttentionStep::ConvertOutput(xs_type));
    let p4 = seq![AttentionStep::ProjectOutput];
    lemma_single(flat, step);
    lemma_single(AttentionStep::ConvertGate, step);
    lemma_single(AttentionStep::MultiplyGate, step);
    lemma_single(AttentionStep::ConvertOutput(xs_type), step);
    lemma_single(AttentionStep::ProjectOutput, step);
    lemma_within_add(p0, p1, 14, 15, 16);
    lemma_within_add(p0 + p1, p2, 14, 16, 17);
    lemma_within_add(p0 + p1 + p2, p3, 14, 17, 18);
    lemma_within_add(p0 + p1 + p2 + p3, p4, 14, 18, 19);
    lemma_contains_add(p0, p1, step);
    lemma_contains_add(p0 + p1, p2, step);
    lemma_contains_add(p0 + p1 + p2, p3, step);
    lemma_contains_add(p0 + p1 + p2 + p3, p4, step);
    assert(a.output_steps(tokens, xs_type) == p0 + p1 + p2 + p3 + p4);
}

/// A pass makes exactly the steps that are due, each once and in order: a given rotary
/// embedding is applied between the norms and the conversions, whatever the number of
/// tokens is, and without one nothing is rotated.
pub proof fn law_passes_make_the_due_steps(
    a: Attention,
    c: AttentionCall,
    r: Result<Vec<AttentionStep>, AttentionError>,
    step: AttentionStep,
)
    requires
        a.fits(c.tokens),
        call_ensures(Attention::forward_ext, (&a, &c), r),
    ensures
        r matches Ok(steps) ==> {
            &&& in_order(steps@)
            &&& steps@.contains(step) == (due_before(a, c.tokens, step) || (step is Rotate
                && c.rotary is Some) || due_between(a, c, step) || due_after(
                a,
                c.tokens,
                c.xs_type,
                step,
            ))
        },
{
    if r is Ok {
        lemma_forward_steps(a, c, step);
    }
}

proof fn lemma_forward_steps(a: Attention, c: AttentionCall, step: AttentionStep)
    requires
        a.fits(c.tokens),
    ensures
        in_order(a.forward_steps(c)),
        a.forward_steps(c).contains(step) == (due_before(a, c.tokens, step) || (step is Rotate
            && c.rotary is Some) || due_between(a, c, step) || due_after(
            a,
            c.tokens,
            c.xs_type,
            step,
        )),
{
    let p0 = a.prepare_steps(c.tokens);
    let p1 = attention::when(c.rotary is Some, AttentionStep::Rotate);
    let p2 = a.attend_steps(c);
    let p3 = a.output_steps(c.tokens, c.xs_type);
    lemma_before(a, c.tokens, step);
    lemma_single(AttentionStep::Rotate, step);
    lemma_between(a, c, step);
    lemma_after(a, c.tokens, c.xs_type, step);
    lemma_within_add(p0, p1, 0, 4, 5);
    lemma_within_add(p0 + p1, p2, 0, 5, 14);
    lemma_within_add(p0 + p1 + p2, p3, 0, 14, 19);
    lemma_contains_add(p0, p1, step);
    lemma_contains_add(p0 + p1, p2, step);
    lemma_contains_add(p0 + p1 + p2, p3, step);
    assert(a.forward_steps(c) == p0 + p1 + p2 + p3);
}

/// A rotary embedding is applied exactly once, for every number of tokens: behind the
/// step that shapes the heads and before they attend. A pass without one applies none.
pub proof fn law_heads_are_rotated_once(
    a: Attention,
    c: AttentionCall,
    r: Result<Vec<AttentionStep>, AttentionError>,
)
    requires
        a.fits(c.tokens),
        call_ensures(Attention::forward_ext, (&a, &c), r),
    ensures
        r matches Ok(steps) ==> {
            &&& c.rotary is None ==> forall|x: int|
                0 <= x < steps@.len() ==> !(#[trigger] steps@[x] is Rotate)
            &&& c.rotary is Some ==> exists|k: int|
                0 <= k < steps@.len() && #[trigger] steps@[k] is Rotate && (forall|x: int|
                    0 <= x < steps@.len() && x != k ==> !(#[trigger] steps@[x] is Rotate)) && (
                forall|x: int|
                    0 <= x < steps@.len() && (#[trigger] steps@[x] is Shape || steps@[x] is NormQk)
                        ==> x < k) && (forall|x: int|
                    0 <= x < steps@.len() && (#[trigger] steps@[x] is Attend || steps@[x]
                        is ConvertQk || steps@[x] is UnitQk) ==> k < x)
        },
{
    if r is Ok {
        let steps = (r->Ok_0)@;
        lemma_forward_steps(a, c, AttentionStep::Rotate);
        if c.rotary is None {
            assert forall|x: int| 0 <= x < steps.len() implies !(#[trigger] steps[x] is Rotate) by {
                if steps[x] is Rotate {
                    assert(steps[x] == AttentionStep::Rotate);
                    assert(steps.contains(AttentionStep::Rotate));
                }
            }
        } else {
            let k = choose|k: int| 0 <= k < steps.len() && steps[k] == AttentionStep::Rotate;
            assert(steps[k] is Rotate);
            assert forall|x: int| 0 <= x < steps.len() && stage(#[trigger] steps[x]) < 4 implies x
                < k by {}
            assert forall|x: int| 0 <= x < steps.len() && stage(#[trigger] steps[x]) > 4 implies x
                > k by {}
            assert forall|x: int| 0 <= x < steps.len() && x != k implies !(#[trigger] steps[x]
                is Rotate) by {
                if x < k {
                    assert(stage(steps[x]) < stage(steps[k]));
                } else {
                    assert(stage(steps[k]) < stage(steps[x]));
                }
            }
        }
    }
}

proof fn lemma_kinds(a: Attention, c: AttentionCall, d: AttentionCall)
    requires
        c.xs_type == d.xs_type,
        c.rotary == d.rotary,
        c.q_scale == d.q_scale,
    ensures
        stages(a.forward_steps(c)) == stages(a.forward_steps(d)),
{
    let (s, t) = (c.tokens, d.tokens);
    assert(stages(a.prepare_steps(s)) =~= stages(a.prepare_steps(t)));
    assert(stages(a.attend_steps(c)) =~= stages(a.attend_steps(d)));
    assert(stages(a.output_steps(s, c.xs_type)) =~= stages(a.output_steps(t, d.xs_type)));
    let turn = attention::when(c.rotary is Some, AttentionStep::Rotate);
    lemma_stages_add(a.prepare_steps(s), turn);
    lemma_stages_add(a.prepare_steps(t), turn);
    lemma_stages_add(a.prepare_steps(s) + turn, a.attend_steps(c));
    lemma_stages_add(a.prepare_steps(t) + turn, a.attend_steps(d));
    lemma_stages_add(
        a.prepare_steps(s) + turn + a.attend_steps(c),
        a.output_steps(s, c.xs_type),
    );
    lemma_stages_add(
        a.prepare_steps(t) + turn + a.attend_steps(d),
        a.output_steps(t, d.xs_type),
    );
}

/// The kinds of steps do not depend on the number of tokens: a pass over one token
/// makes those of a pass over many.
pub proof fn law_kinds_of_steps_ignore_tokens(
    a: Attention,
    c: AttentionCall,
    d: AttentionCall,
    r: Result<Vec<AttentionStep>, AttentionError>,
    q: Result<Vec<AttentionStep>, AttentionError>,
)
    requires
        call_ensures(Attention::forward_ext, (&a, &c), r),
        call_ensures(Attention::forward_ext, (&a, &d), q),
        c.outputs == d.outputs && c.q_dim == d.q_dim && c.xs_type == d.xs_type,
        c.rotary == d.rotary && c.q_scale == d.q_scale,
    ensures
        r is Ok == q is Ok,
        r matches Ok(x) ==> (q matches Ok(y) && stages(x@) == stages(y@)),
{
    lemma_kinds(a, c, d);
}

/// A pass is refused exactly where a packed projection does not give three tensors, or
/// where gated queries are not twice as long as the heads; the first comes first.
pub proof fn law_passes_are_refused(
    a: Attention,
    c: AttentionCall,
    r: Result<Vec<AttentionStep>, AttentionError>,
)
    requires
        a.fits(c.tokens),
        call_ensures(Attention::forward_ext, (&a, &c), r),
    ensures
        a.packed && c.outputs != 3 ==> r == Err::<Vec<AttentionStep>, AttentionError>(
            AttentionError::PackedOutputs { got: c.outputs },
        ),
        r matches Err(AttentionError::GatedDim { expected, got }) ==> a.attn_output_gate && expected
            == a.num_heads * a.head_dim + a.num_heads * a.head_dim && got == c.q_dim && got
            != expected,
        r is Ok == ((!a.packed || c.outputs == 3) && (!a.attn_output_gate || c.q_dim
            == a.num_heads * a.head_dim + a.num_heads * a.head_dim)),
{
    assert(a.num_heads * a.head_dim >= 0) by (nonlinear_arith);
}

/// A pass without a scale makes the steps of one with a scale, but for that scale.
pub proof fn law_unscaled_passes(
    a: Attention,
    c: AttentionCall,
    r: Result<Vec<AttentionStep>, AttentionError>,
    q: Result<Vec<AttentionStep>, AttentionError>,
    step: AttentionStep,
)
    requires
        a.fits(c.tokens),
        call_ensures(Attention::forward, (&a, &c), r),
        call_ensures(Attention::forward_ext, (&a, &c), q),
    ensures
        r is Ok == q is Ok,
        r is Err ==> r->Err_0 == q->Err_0,
        r matches Ok(x) ==> (q matches Ok(y) && in_order(x@) && x@.contains(step) == (y@.contains(
            step,
        ) && !(step is ScaleGiven))),
{
    let d = AttentionCall { q_scale: false, ..c };
    lemma_forward_steps(a, c, step);
    lemma_forward_steps(a, d, step);
}

/// A pass over single tokens makes exactly the due steps, in order: those of other
/// passes but for attention itself. The values are the output, each head repeated for
/// its group where it has more than one, and queries and keys are always rotated.
pub proof fn law_single_tokens_make_the_due_steps(
    a: Attention,
    tokens: usize,
    xs_type: Dtype,
    steps: Vec<AttentionStep>,
    step: AttentionStep,
)
    requires
        a.fits(tokens),
        a.num_kv_heads > 0,
        call_ensures(Attention::forward_single_token_no_cache, (&a, tokens, xs_type), steps),
    ensures
        in_order(steps@),
        steps@.contains(step) == (due_before(a, tokens, step) || step is Rotate || step
            is TakeValues || (step matches AttentionStep::RepeatValues(s) && s.0 == tokens && s.1
            == a.num_kv_heads && s.3 == a.head_dim && s.2 > 1 && s.1 * s.2 <= a.num_heads
            < s.1 * (s.2 + 1)) || due_after(a, tokens, xs_type, step)),
{
    let repeats = a.num_heads as int / a.num_kv_heads as int;
    let again = AttentionStep::RepeatValues(
        (tokens, a.num_kv_heads, repeats as usize, a.head_dim),
    );
    let p0 = a.prepare_steps(tokens);
    let p1 = seq![AttentionStep::Rotate];
    let p2 = attention::when(repeats > 1, again);
    let p3 = seq![AttentionStep::TakeValues];
    let p4 = a.output_steps(tokens, xs_type);
    vstd::arithmetic::div_mod::lemma_fundamental_div_mod(
        a.num_heads as int,
        a.num_kv_heads as int,
    );
    vstd::arithmetic::div_mod::lemma_div_pos_is_pos(a.num_heads as int, a.num_kv_heads as int);
    vstd::arithmetic::div_mod::lemma_div_is_ordered_by_denominator(
        a.num_heads as int,
        1,
        a.num_kv_heads as int,
    );
    assert(a.num_kv_heads * (repeats + 1) == a.num_kv_heads * repeats + a.num_kv_heads)
        by (nonlinear_arith);
    if step is RepeatValues {
        let s = step->RepeatValues_0;
        if s.1 == a.num_kv_heads && s.1 * s.2 <= a.num_heads < s.1 * (s.2 + 1) {
            let rem = a.num_heads - s.1 * s.2;
            assert(s.1 * (s.2 + 1) == s.1 * s.2 + s.1) by (nonlinear_arith);
            vstd::arithmetic::mul::lemma_mul_is_commutative(s.1 as int, s.2 as int);
            vstd::arithmetic::div_mod::lemma_fundamental_div_mod_converse(
                a.num_heads as int,
                a.num_kv_heads as int,
                s.2 as int,
                rem,
            );
        }
    }
    lemma_before(a, tokens, step);
    lemma_single(AttentionStep::Rotate, step);
    lemma_single(again, step);
    lemma_single(AttentionStep::TakeValues, step);
    lemma_after(a, tokens, xs_type, step);
    lemma_within_add(p0, p1, 0, 4, 5);
    lemma_within_add(p0 + p1, p2, 0, 12, 13);
    lemma_within_add(p0 + p1 + p2, p3, 0, 13, 14);
    lemma_within_add(p0 + p1 + p2 + p3, p4, 0, 14, 19);
    lemma_contains_add(p0, p1, step);
    lemma_contains_add(p0 + p1, p2, step);
    lemma_contains_add(p0 + p1 + p2, p3, step);
    lemma_contains_add(p0 + p1 + p2 + p3, p4, step);
    assert(a.single_token_steps(tokens, xs_type) == p0 + p1 + p2 + p3 + p4);
}

/// A step converts only what has another type: promotion to singles, queries, keys and
/// values to the type of the step, gates to that of the output. The output is converted
/// in any case, and other steps convert nothing.
pub proof fn law_steps_convert_what_differs(
    step: AttentionStep,
    got: Dtype,
    output: Dtype,
    r: Option<Dtype>,
)
    requires
        call_ensures(AttentionStep::convert, (&step, got, output), r),
    ensures
        step is PromoteQk ==> (r is None == (got is F32)) && (r matches Some(d) ==> d is F32),
        step matches AttentionStep::ConvertQk(to) ==> (r is None == (got == to)) && (
        r matches Some(d) ==> d == to),
        step matches AttentionStep::ConvertV(to) ==> (r is None == (got == to)) && (
        r matches Some(d) ==> d == to),
        step is ConvertGate ==> (r is None == (got == output)) && (r matches Some(d) ==> d
            == output),
        step matches AttentionStep::ConvertOutput(to) ==> r == Some(to),
        !(step is PromoteQk || step is ConvertQk || step is ConvertV || step is ConvertGate || step
            is ConvertOutput) ==> r is None,
{
}

// ---- Cuts ----

/// The parts that ranks cut out of a whole length tile it: the first one starts at
/// zero, each next one where the one before ends, and where the length divides the
/// last one ends with it. A length that is one part already is taken as it is.
pub proof fn law_parts_tile_a_length(
    global: usize,
    dim: usize,
    rank: usize,
    ranks: usize,
    r: Result<Option<Slice>, AttentionError>,
    next: Result<Option<Slice>, AttentionError>,
    got: usize,
    taken: Result<Option<Slice>, AttentionError>,
)
    requires
        rank + 1 < ranks,
        global >= ranks,
        call_ensures(
            normalize_sharded_1d,
            (global, global, Shard { dim, rank, world_size: ranks }),
            r,
        ),
        call_ensures(
            normalize_sharded_1d,
            (global, global, Shard { dim, rank: (rank + 1) as usize, world_size: ranks }),
            next,
        ),
        call_ensures(
            normalize_sharded_1d,
            (got, global, Shard { dim, rank, world_size: ranks }),
            taken,
        ),
    ensures
        r matches Ok(Some(a)) && next matches Ok(Some(b)) && {
            &&& rank == 0 ==> a.start == 0
            &&& b.start == a.start + a.len
            &&& a.len == b.len
            &&& a.len * ranks <= global < (a.len + 1) * ranks
            &&& rank + 2 == ranks && global as int % ranks as int == 0 ==> b.start + b.len == global
            &&& got == a.len ==> taken == Ok::<Option<Slice>, AttentionError>(None)
            &&& got != a.len && got != global ==> taken == Err::<Option<Slice>, AttentionError>(
                AttentionError::ShardShape { got, local: a.len, global },
            )
        },
{
    lemma_parts(global as int, rank as int, ranks as int);
}

proof fn lemma_parts(global: int, rank: int, ranks: int)
    requires
        0 <= rank,
        rank + 1 < ranks,
        global >= ranks,
    ensures
        ({
            let local = global / ranks;
            &&& 1 <= local < global
            &&& (rank + 1) * local == rank * local + local
            &&& 0 <= rank * local
            &&& (rank + 1) * local + local <= global
            &&& local * ranks <= global < (local + 1) * ranks
            &&& rank + 2 == ranks && global % ranks == 0 ==> (rank + 1) * local + local == global
            &&& rank == 0 ==> rank * local == 0
        }),
{
    let local = global / ranks;
    vstd::arithmetic::div_mod::lemma_fundamental_div_mod(global, ranks);
    assert(ranks * local + global % ranks == global);
    assert(1 <= local) by (nonlinear_arith)
        requires
            ranks * local + global % ranks == global,
            global >= ranks,
            ranks > 0,
            0 <= global % ranks < ranks,
    ;
    assert(local < global && (rank + 1) * local == rank * local + local && 0 <= rank * local && (
    rank + 1) * local + local <= ranks * local && local * ranks == ranks * local && (local + 1)
        * ranks == ranks * local + ranks) by (nonlinear_arith)
        requires
            1 <= local,
            0 <= rank,
            rank + 1 < ranks,
            ranks * local <= global,
    ;
    if rank + 2 == ranks {
        assert((rank + 1) * local + local == ranks * local) by (nonlinear_arith)
            requires
                rank + 2 == ranks,
        ;
    }
}

/// On a single rank nothing is cut, whatever came.
pub proof fn law_single_ranks_cut_nothing(
    got: usize,
    global: usize,
    shard: Shard,
    r: Result<Option<Slice>, AttentionError>,
    dims: (usize, usize),
    globals: (usize, usize),
    q: Result<Option<Slice>, AttentionError>,
)
    requires
        shard.world_size <= 1,
        call_ensures(normalize_sharded_1d, (got, global, shard), r),
        call_ensures(normalize_sharded_2d, (dims, globals, shard), q),
    ensures
        r == Ok::<Option<Slice>, AttentionError>(None),
        q == Ok::<Option<Slice>, AttentionError>(None),
{
}

/// A matrix is cut along the dimension of its shard as a length is, whatever its other
/// dimension is. A third dimension is refused.
pub proof fn law_matrices_are_cut_along_one_dimension(
    dims: (usize, usize),
    global: (usize, usize),
    shard: Shard,
    r: Result<Option<Slice>, AttentionError>,
    rows: Result<Option<Slice>, AttentionError>,
    cols: Result<Option<Slice>, AttentionError>,
)
    requires
        shard.world_size > 1,
        call_ensures(normalize_sharded_2d, (dims, global, shard), r),
        call_ensures(normalize_sharded_1d, (dims.0, global.0, shard), rows),
        call_ensures(normalize_sharded_1d, (dims.1, global.1, shard), cols),
    ensures
        shard.dim == 0 ==> r == rows,
        shard.dim == 1 ==> r == cols,
        shard.dim > 1 ==> r == Err::<Option<Slice>, AttentionError>(
            AttentionError::ShardDim { dim: shard.dim },
        ),
{
}

} // verus!
