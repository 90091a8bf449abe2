//! Laws of how a model is loaded, and of the buffers and states that it keeps.

use crate::config::Config;
use crate::dtype::Dtype;
use crate::models::layers::attention::AttentionError;
use crate::models::layers::deltanet::GdnError;
use crate::models::layers::distributed::Comm;
use crate::models::layers::linear::Slice;
use crate::models::layers::others::{self, EmbeddingPlan};
use crate::models::layers::var_builder::VarBuilderX;
use crate::models::qwen3_5::{
    self, BufferPlan, LayerError, LayerNames, LayerRollback, ModelNames, Qwen3_5AttnType,
    Qwen3_5DecoderLayer, Qwen3_5ForCausalLM, RollbackPlan, RotaryPlan, StateTables,
};
use crate::text;
use vstd::prelude::*;

verus! {

// ---- Names ----

/// The modules of a layer, by the kind of its attention; single files have none.
pub proof fn law_layers_have_named_modules(vb: VarBuilderX, kind: &str, r: LayerNames)
    requires
        call_ensures(LayerNames::new, (&vb, kind), r),
    ensures
        vb.is_gguf ==> {
            &&& r.attn@ == vb.path@ && r.mlp@ == vb.path@
            &&& r.input_norm@ == vb.name_of("attn_norm"@)
            &&& r.post_attention_norm@ == vb.name_of("post_attention_norm"@)
        },
        !vb.is_gguf ==> {
            &&& kind@ == "full_attention"@ ==> r.attn@ == vb.name_of("self_attn"@)
            &&& kind@ != "full_attention"@ ==> r.attn@ == vb.name_of("linear_attn"@)
            &&& r.mlp@ == vb.name_of("mlp"@)
            &&& r.input_norm@ == vb.name_of("input_layernorm"@)
            &&& r.post_attention_norm@ == vb.name_of("post_attention_layernorm"@)
        },
{
}

/// The modules of a model stand under its prefix, which is `model.` where none is given.
/// Where they stand without it the model has no decoder and its head is tied.
pub proof fn law_models_have_named_modules(
    vb: VarBuilderX,
    prefix: Option<&str>,
    tie: Option<bool>,
    mlx: bool,
    r: ModelNames,
)
    requires
        call_ensures(ModelNames::new, (&vb, prefix, tie, mlx), r),
        !vb.is_gguf,
    ensures
        ({
            let p = match prefix {
                Some(s) => s@,
                None => "model."@,
            };
            let bare = vb.lists("embed_tokens.weight"@) && !vb.lists(p + "embed_tokens.weight"@);
            &&& r.no_decoder == bare
            &&& r.tied == (bare || tie == Some(true))
            &&& bare ==> r.embed_tokens@ == vb.name_of("embed_tokens"@) && r.layers@ == "layers"@
                && r.norm@ == vb.name_of("norm"@)
            &&& !bare ==> r.embed_tokens@ == vb.name_of(p + "embed_tokens"@) && r.layers@ == p
                + "layers"@ && r.norm@ == vb.name_of(p + "norm"@)
            &&& !r.tied ==> r.lm_head@ == vb.name_of("lm_head"@)
            &&& r.tied && !mlx ==> r.lm_head@ == r.embed_tokens@
            &&& r.tied && mlx ==> r.lm_head@ == vb.name_of(Seq::empty())
        }),
{
    assert(Seq::<char>::empty() + "embed_tokens"@ =~= "embed_tokens"@);
    assert(Seq::<char>::empty() + "layers"@ =~= "layers"@);
    assert(Seq::<char>::empty() + "norm"@ =~= "norm"@);
}

/// Single files name the modules of a model in their own way.
pub proof fn law_single_files_name_their_modules(
    vb: VarBuilderX,
    prefix: Option<&str>,
    tie: Option<bool>,
    mlx: bool,
    r: ModelNames,
)
    requires
        call_ensures(ModelNames::new, (&vb, prefix, tie, mlx), r),
        vb.is_gguf,
    ensures
        ({
            let p = match prefix {
                Some(s) => s@,
                None => Seq::empty(),
            };
            &&& !r.no_decoder
            &&& r.tied == (tie == Some(true))
            &&& r.embed_tokens@ == vb.name_of(p + "token_embd"@) && r.layers@ == p + "blk"@
            &&& r.norm@ == vb.name_of(p + "output_norm"@)
            &&& !r.tied ==> r.lm_head@ == vb.name_of("output"@)
            &&& r.tied && !mlx ==> r.lm_head@ == r.embed_tokens@
        }),
{
}

/// A layer stands under its number.
pub proof fn law_layers_stand_under_their_number(
    n: ModelNames,
    vb: VarBuilderX,
    i: usize,
    r: VarBuilderX,
    number: String,
)
    requires
        call_ensures(ModelNames::layer, (&n, &vb, i), r),
        call_ensures(text::decimal, (i,), number),
    ensures
        r.path@ == vb.name_of(n.layers@ + seq!['.'] + number@),
        r.is_gguf == vb.is_gguf && r.gguf == vb.gguf && r.has_pool == vb.has_pool,
{
}

// ---- Layers ----

/// An error of linear attention tells the heads that do not fit: first that they make no
/// groups, then that they do not divide.
pub open spec fn tells_heads(c: Config, comm: Comm, e: GdnError) -> bool {
    let h = c.hybrid;
    let ws = comm.world_size as int;
    let grouped = h.num_v_heads as int % h.num_k_heads as int == 0;
    match e {
        GdnError::HeadGroups { num_v_heads, num_k_heads } => !grouped && num_v_heads
            == h.num_v_heads && num_k_heads == h.num_k_heads,
        GdnError::HeadRanks { num_v_heads, num_k_heads, world_size } => num_v_heads
            == h.num_v_heads && num_k_heads == h.num_k_heads && world_size == comm.world_size && (
        h.num_v_heads as int % ws != 0 || h.num_k_heads as int % ws != 0),
        _ => false,
    }
}

/// A layer of full attention is loaded where its key heads divide over the ranks, one of
/// linear attention where its heads make groups and divide.
pub proof fn law_layers_are_refused(
    vb: VarBuilderX,
    comm: Comm,
    rotary: RotaryPlan,
    c: Config,
    kind: &str,
    index: usize,
    skip: bool,
    dtype: Dtype,
    r: Result<Qwen3_5DecoderLayer, LayerError>,
)
    requires
        call_ensures(
            Qwen3_5DecoderLayer::new,
            (&vb, &comm, rotary, &c, kind, index, skip, dtype),
            r,
        ),
    ensures
        ({
            let ws = comm.world_size as int;
            let h = c.hybrid;
            &&& kind@ == "full_attention"@ ==> r is Ok == (c.num_key_value_heads as int % ws == 0)
            &&& kind@ == "full_attention"@ ==> (r matches Err(e) ==> (e matches LayerError::Full(
                AttentionError::Heads(x),
            ) && x.num_kv_heads == c.num_key_value_heads && x.world_size == comm.world_size))
            &&& kind@ != "full_attention"@ ==> r is Ok == (h.num_v_heads as int
                % h.num_k_heads as int == 0 && h.num_v_heads as int % ws == 0
                && h.num_k_heads as int % ws == 0)
            &&& kind@ != "full_attention"@ ==> (r matches Err(e) ==> e is Linear && tells_heads(
                c,
                comm,
                e->Linear_0,
            ))
        }),
{
}

/// A loaded layer attends in the way of its kind. Only full attention rotates. Its norms
/// are as long as the hidden state, in single precision, and its feed forward has the
/// sizes of the settings.
pub proof fn law_layers_are_loaded(
    vb: VarBuilderX,
    comm: Comm,
    rotary: RotaryPlan,
    c: Config,
    kind: &str,
    index: usize,
    skip: bool,
    dtype: Dtype,
    l: Qwen3_5DecoderLayer,
    names: LayerNames,
)
    requires
        !vb.is_gguf,
        call_ensures(
            Qwen3_5DecoderLayer::new,
            (&vb, &comm, rotary, &c, kind, index, skip, dtype),
            Ok::<Qwen3_5DecoderLayer, LayerError>(l),
        ),
        call_ensures(LayerNames::new, (&vb, kind), names),
    ensures
        l.attn is FullAttention == (kind@ == "full_attention"@),
        l.attn matches Qwen3_5AttnType::FullAttention(p) ==> {
            &&& l.rotary_emb == Some(rotary)
            &&& p.path@ == names.attn@
            &&& p.sliding_window == c.sliding_window && p.dtype == dtype
            &&& !p.qk_l2_norm && p.names.k@ == "k_proj"@ && p.names.v@ == "v_proj"@
        },
        l.attn matches Qwen3_5AttnType::LinearAttention(net) ==> {
            &&& l.rotary_emb is None
            &&& net.gdn_layer_idx == index
            &&& net.out_proj.path@ == text::dotted(names.attn@, "out_proj"@)
            &&& net.types.model_dtype == dtype
        },
        l.input_layernorm_path@ == names.input_norm@,
        l.post_attention_layernorm_path@ == names.post_attention_norm@,
        l.input_layernorm == l.post_attention_layernorm,
        l.input_layernorm.size == c.hidden_size && l.input_layernorm.eps == c.rms_norm_eps,
        l.input_layernorm.kind is Rms && l.input_layernorm.dtype is F32,
        l.input_layernorm.add_one == !c.is_mlx_nvfp4,
        l.input_layernorm.shard.world_size == 0 && !l.input_layernorm.v4,
        l.mlp.down_proj.inner.weight.shape@ == seq![c.hidden_size, c.intermediate_size],
        l.mlp.activation == c.hidden_act,
        l.mlp.gate_up_proj is Separate,
        l.mlp.down_proj.path@ == text::dotted(names.mlp@, "down_proj"@),
{
}

// ---- Models ----

/// How many of the first `n` kinds are linear attention.
pub open spec fn linear_kinds(types: Seq<String>, n: int) -> Seq<int> {
    Seq::new(n as nat, |i: int| i).filter(|i: int| types[i]@ == "linear_attention"@)
}

proof fn lemma_linear_kinds(types: Seq<String>, n: int)
    requires
        0 <= n,
    ensures
        qwen3_5::linear_before(types, n) == linear_kinds(types, n).len(),
    decreases n,
{
    reveal(Seq::filter);
    if n > 0 {
        lemma_linear_kinds(types, n - 1);
        let s = Seq::new(n as nat, |i: int| i);
        assert(s.drop_last() =~= Seq::new((n - 1) as nat, |i: int| i));
    }
}

/// A model has the layers of its settings, each under its number and of its kind, and
/// the states of its linear layers are numbered by the linear layers before them.
pub proof fn law_models_have_their_layers(
    vb: VarBuilderX,
    comm: Comm,
    c: Config,
    skip: bool,
    dtype: Dtype,
    rope: bool,
    prefix: Option<&str>,
    m: Qwen3_5ForCausalLM,
    i: int,
    n: usize,
    at: VarBuilderX,
    names: LayerNames,
    kind: &str,
)
    requires
        !vb.is_gguf,
        call_ensures(
            Qwen3_5ForCausalLM::new_with_prefix,
            (&vb, &comm, &c, skip, dtype, rope, prefix),
            Ok::<Qwen3_5ForCausalLM, LayerError>(m),
        ),
        0 <= i < m.layers@.len(),
        n == i,
        call_ensures(ModelNames::layer, (&m.names, &vb, n), at),
        kind@ == c.layer_types@[i]@,
        call_ensures(LayerNames::new, (&at, kind), names),
        c.layer_types@.len() <= usize::MAX,
    ensures
        m.layers@.len() == c.num_hidden_layers,
        m.layers@[i].attn is FullAttention == (kind@ == "full_attention"@),
        m.layers@[i].input_layernorm_path@ == names.input_norm@,
        m.layers@[i].post_attention_layernorm_path@ == names.post_attention_norm@,
        m.layers@[i].mlp.down_proj.path@ == text::dotted(names.mlp@, "down_proj"@),
        m.layers@[i].attn matches Qwen3_5AttnType::FullAttention(p) ==> p.path@ == names.attn@
            && m.layers@[i].rotary_emb == Some(m.rotary_emb),
        m.layers@[i].input_layernorm == m.norm && m.layers@[i].post_attention_layernorm == m.norm,
        m.layers@[i].mlp.down_proj.inner.weight.shape@ == seq![c.hidden_size, c.intermediate_size],
        m.layers@[i].mlp.down_proj.inner.dtype == dtype && m.layers@[i].mlp.activation
            == c.hidden_act && m.layers@[i].mlp.gate_up_proj is Separate,
        m.layers@[i].attn matches Qwen3_5AttnType::FullAttention(p) ==> p.dtype == dtype
            && p.sliding_window == c.sliding_window && !p.qk_l2_norm && p.names.v@ == "v_proj"@,
        m.layers@[i].attn matches Qwen3_5AttnType::LinearAttention(net) ==> m.layers@[i].rotary_emb
            is None && net.types.model_dtype == dtype && net.out_proj.path@ == text::dotted(
            names.attn@,
            "out_proj"@,
        ),
        m.layers@[i].attn matches Qwen3_5AttnType::LinearAttention(net) ==> (kind@
            == "linear_attention"@ ==> net.gdn_layer_idx == linear_kinds(c.layer_types@, i).len())
            && (kind@ != "linear_attention"@ ==> net.gdn_layer_idx == 0),
        m.linear_types == linear_kinds(c.layer_types@, c.layer_types@.len() as int).len(),
{
    lemma_linear_kinds(c.layer_types@, i);
    lemma_linear_kinds(c.layer_types@, c.layer_types@.len() as int);
    lemma_before_is_less(c.layer_types@, i);
    assert(m.layers@.len() == m.layers.len());
    let _ = m.layers@[i];
}

proof fn lemma_before_is_less(types: Seq<String>, n: int)
    requires
        0 <= n,
    ensures
        0 <= qwen3_5::linear_before(types, n) <= n,
    decreases n,
{
    if n > 0 {
        lemma_before_is_less(types, n - 1);
    }
}

/// A model keeps what its settings say: words, sizes, types, its last norm and its head,
/// and it starts without buffers.
pub proof fn law_models_keep_their_settings(
    vb: VarBuilderX,
    comm: Comm,
    c: Config,
    skip: bool,
    dtype: Dtype,
    rope: bool,
    prefix: Option<&str>,
    m: Qwen3_5ForCausalLM,
    v: usize,
    t: Dtype,
    names: ModelNames,
    at: VarBuilderX,
    e: EmbeddingPlan,
)
    requires
        !vb.is_gguf,
        call_ensures(
            ModelNames::new,
            (&vb, prefix, c.tie_word_embeddings, c.is_mlx_nvfp4),
            names,
        ),
        at.path@ == m.names.embed_tokens@ && at.path@.len() > 0 && !at.is_gguf && at.gguf
            == vb.gguf,
        call_ensures(others::embedding, (c.vocab_size, c.hidden_size, &at, dtype), e),
        call_ensures(
            Qwen3_5ForCausalLM::new_with_prefix,
            (&vb, &comm, &c, skip, dtype, rope, prefix),
            Ok::<Qwen3_5ForCausalLM, LayerError>(m),
        ),
        call_ensures(Qwen3_5ForCausalLM::get_vocab_size, (&m,), v),
        call_ensures(Qwen3_5ForCausalLM::dtype, (&m,), t),
    ensures
        c.vocab_size == Some(v) && t == dtype,
        m.hidden_size == c.hidden_size && m.hybrid == c.hybrid && m.sliding_window
            == c.sliding_window,
        m.quantizes_on_load == c.quantizes_on_load && m.higher_precision_required
            == c.higher_precision_required,
        m.norm.size == c.hidden_size && m.norm.eps == c.rms_norm_eps && m.norm.dtype is F32
            && m.norm.add_one == !c.is_mlx_nvfp4,
        m.lm_head.path@ == m.names.lm_head@ && m.lm_head.comm == comm,
        m.lm_head.inner.weight.shape@ == seq![v, c.hidden_size] && m.lm_head.inner.bias is None,
        m.names.tied && c.is_mlx_nvfp4 ==> m.lm_head.inner.weight.shard.world_size == 0,
        !(m.names.tied && c.is_mlx_nvfp4) ==> m.lm_head.inner.weight.shard.dim == 1
            && m.lm_head.inner.weight.shard.rank == comm.rank
            && m.lm_head.inner.weight.shard.world_size == comm.world_size,
        c.higher_precision_required ==> m.rotary_emb.dtype is F32,
        !c.higher_precision_required ==> m.rotary_emb.dtype == dtype,
        m.rotary_emb.is_rope_i == rope && m.rotary_emb.theta == c.rope_theta,
        m.mtp_hidden_buffer is None && m.dflash_verify_hidden_buffers is None
            && m.dflash_target_layer_ids@.len() == 0,
        m.embed_tokens == e,
        m.names.embed_tokens@ == names.embed_tokens@ && m.names.layers@ == names.layers@,
        m.names.norm@ == names.norm@ && m.names.lm_head@ == names.lm_head@,
        m.names.tied == names.tied && m.names.no_decoder == names.no_decoder,
{
}

/// A model without a prefix is loaded as one whose prefix is not given.
pub proof fn law_models_load_without_a_prefix(
    vb: VarBuilderX,
    comm: Comm,
    c: Config,
    skip: bool,
    dtype: Dtype,
    rope: bool,
    r: Result<Qwen3_5ForCausalLM, LayerError>,
    q: Result<Qwen3_5ForCausalLM, LayerError>,
)
    requires
        !vb.is_gguf,
        call_ensures(Qwen3_5ForCausalLM::new, (&vb, &comm, &c, skip, dtype, rope), r),
        call_ensures(
            Qwen3_5ForCausalLM::new_with_prefix,
            (&vb, &comm, &c, skip, dtype, rope, None),
            q,
        ),
    ensures
        r is Ok == q is Ok,
        r matches Err(e) ==> q == Err::<Qwen3_5ForCausalLM, LayerError>(e),
        r matches Ok(m) ==> {
            let o = q->Ok_0;
            &&& m.layers@.len() == o.layers@.len() && m.vocab_size == o.vocab_size
            &&& m.names.embed_tokens@ == o.names.embed_tokens@ && m.names.layers@
                == o.names.layers@
            &&& m.names.norm@ == o.names.norm@ && m.names.lm_head@ == o.names.lm_head@
            &&& m.norm == o.norm && m.rotary_emb == o.rotary_emb && m.embed_tokens
                == o.embed_tokens
            &&& m.hidden_size == o.hidden_size && m.hybrid == o.hybrid && m.linear_types
                == o.linear_types
        },
{
}

/// A kind of attention loads with these ranks.
pub open spec fn kind_loads(c: Config, comm: Comm, kind: Seq<char>) -> bool {
    let ws = comm.world_size as int;
    let h = c.hybrid;
    if kind == "full_attention"@ {
        c.num_key_value_heads as int % ws == 0
    } else {
        &&& h.num_v_heads as int % h.num_k_heads as int == 0
        &&& h.num_v_heads as int % ws == 0
        &&& h.num_k_heads as int % ws == 0
    }
}

proof fn lemma_layers_refusal(c: Config, comm: Comm, n: int)
    requires
        0 <= n,
    ensures
        Qwen3_5ForCausalLM::layers_refusal(c, comm, n) is None <==> forall|i: int|
            0 <= i < n ==> kind_loads(c, comm, #[trigger] c.layer_types@[i]@),
    decreases n,
{
    if n > 0 {
        lemma_layers_refusal(c, comm, n - 1);
        let k = c.layer_types@[n - 1]@;
        assert(qwen3_5::layer_refusal(c, comm, k) is None <==> kind_loads(c, comm, k));
        if Qwen3_5ForCausalLM::layers_refusal(c, comm, n) is None {
            assert forall|i: int| 0 <= i < n implies kind_loads(
                c,
                comm,
                #[trigger] c.layer_types@[i]@,
            ) by {
                if i == n - 1 {
                    assert(kind_loads(c, comm, k));
                }
            }
        }
    }
}

/// A model is loaded exactly where all of its layers load and the heads of its linear
/// attention divide over the ranks.
pub proof fn law_models_are_refused(
    vb: VarBuilderX,
    comm: Comm,
    c: Config,
    skip: bool,
    dtype: Dtype,
    rope: bool,
    prefix: Option<&str>,
    r: Result<Qwen3_5ForCausalLM, LayerError>,
)
    requires
        call_ensures(
            Qwen3_5ForCausalLM::new_with_prefix,
            (&vb, &comm, &c, skip, dtype, rope, prefix),
            r,
        ),
    ensures
        r is Ok <==> {
            let ws = comm.world_size as int;
            &&& forall|i: int|
                0 <= i < c.num_hidden_layers ==> kind_loads(c, comm, #[trigger] c.layer_types@[i]@)
            &&& c.hybrid.num_v_heads as int % ws == 0
            &&& c.hybrid.num_k_heads as int % ws == 0
        },
        r matches Err(LayerError::Linear(e)) ==> tells_heads(c, comm, e),
        r matches Err(LayerError::Full(e)) ==> (e matches AttentionError::Heads(x)
            && x.num_kv_heads == c.num_key_value_heads && x.world_size == comm.world_size
            && c.num_key_value_heads as int % comm.world_size as int != 0),
{
    lemma_layers_refusal(c, comm, c.num_hidden_layers as int);
    lemma_refusals_tell(c, comm, c.num_hidden_layers as int);
}

proof fn lemma_refusals_tell(c: Config, comm: Comm, n: int)
    ensures
        Qwen3_5ForCausalLM::layers_refusal(c, comm, n) matches Some(e) ==> match e {
            LayerError::Linear(x) => tells_heads(c, comm, x),
            LayerError::Full(x) => x matches AttentionError::Heads(h) && h.num_kv_heads
                == c.num_key_value_heads && h.world_size == comm.world_size
                && c.num_key_value_heads as int % comm.world_size as int != 0,
        },
    decreases n,
{
    if n > 0 {
        lemma_refusals_tell(c, comm, n - 1);
    }
}

/// The first layer that does not load decides the error of the model.
pub proof fn law_first_refused_layers_decide(
    vb: VarBuilderX,
    comm: Comm,
    c: Config,
    skip: bool,
    dtype: Dtype,
    rope: bool,
    prefix: Option<&str>,
    r: Result<Qwen3_5ForCausalLM, LayerError>,
    i: int,
)
    requires
        call_ensures(
            Qwen3_5ForCausalLM::new_with_prefix,
            (&vb, &comm, &c, skip, dtype, rope, prefix),
            r,
        ),
        0 <= i < c.num_hidden_layers,
        !kind_loads(c, comm, c.layer_types@[i]@),
        forall|j: int| 0 <= j < i ==> kind_loads(c, comm, #[trigger] c.layer_types@[j]@),
    ensures
        r is Err,
        r->Err_0 is Full == (c.layer_types@[i]@ == "full_attention"@),
{
    lemma_layers_refusal(c, comm, i);
    lemma_first_refusal(c, comm, i, c.num_hidden_layers as int);
}

proof fn lemma_first_refusal(c: Config, comm: Comm, i: int, n: int)
    requires
        0 <= i < n,
        Qwen3_5ForCausalLM::layers_refusal(c, comm, i) is None,
        !kind_loads(c, comm, c.layer_types@[i]@),
    ensures
        Qwen3_5ForCausalLM::layers_refusal(c, comm, n) is Some,
        Qwen3_5ForCausalLM::layers_refusal(c, comm, n)->Some_0 is Full == (c.layer_types@[i]@
            == "full_attention"@),
    decreases n,
{
    if n > i + 1 {
        lemma_first_refusal(c, comm, i, n - 1);
    }
}

// ---- Buffers ----

/// Embeddings are converted to single precision exactly where the model is quantized and
/// they are not.
pub proof fn law_embeddings_are_converted(m: Qwen3_5ForCausalLM, got: Dtype, r: Option<Dtype>)
    requires
        call_ensures(Qwen3_5ForCausalLM::embed_forward, (&m, got), r),
    ensures
        r is Some == ((m.is_qvar_builder || m.quantizes_on_load) && !(got is F32)),
        r matches Some(t) ==> t is F32,
{
}

/// Buffers of verified layers have the rows that were asked for, one for each layer, and
/// the type of what runs through the layers; nothing else of the model changes.
pub proof fn law_verify_buffers_are_made(
    m: &mut Qwen3_5ForCausalLM,
    ids: &[usize],
    len: usize,
    r: BufferPlan,
)
    requires
        call_ensures(
            Qwen3_5ForCausalLM::preallocate_dflash_verify_buffers,
            (m, ids, len),
            r,
        ),
    ensures
        r.rows == len && r.cols == old(m).hidden_size,
        old(m).is_qvar_builder || old(m).quantizes_on_load || old(m).higher_precision_required
            ==> r.dtype is F32,
        !(old(m).is_qvar_builder || old(m).quantizes_on_load || old(m).higher_precision_required)
            ==> r.dtype == old(m).dtype,
        final(m).dflash_target_layer_ids@ == ids@,
        final(m).dflash_verify_hidden_buffers matches Some(b) && b@.len() == ids@.len() && forall|
            i: int,
        |
            0 <= i < b@.len() ==> #[trigger] b@[i] == len,
        final(m).mtp_hidden_buffer == old(m).mtp_hidden_buffer,
        final(m).layers == old(m).layers && final(m).dtype == old(m).dtype && final(m).hidden_size
            == old(m).hidden_size,
{
}

/// Verified states are taken from the start of each buffer, as many as asked for, and
/// only where all buffers hold them.
pub proof fn law_verified_states_are_taken(
    m: Qwen3_5ForCausalLM,
    n: usize,
    r: Option<Vec<Slice>>,
    i: int,
)
    requires
        call_ensures(Qwen3_5ForCausalLM::take_dflash_verify_hiddens, (&m, n), r),
    ensures
        r matches Some(p) ==> {
            &&& n > 0 && p@.len() == m.dflash_target_layer_ids@.len()
            &&& 0 <= i < p@.len() ==> p@[i].start == 0 && p@[i].len == n
            &&& m.dflash_verify_hidden_buffers matches Some(b) && b@.len() == p@.len() && (0 <= i
                < b@.len() ==> n <= b@[i])
        },
        n == 0 || m.dflash_verify_hidden_buffers is None ==> r is None,
        m.dflash_verify_hidden_buffers matches Some(b) ==> {
            &&& b@.len() != m.dflash_target_layer_ids@.len() ==> r is None
            &&& 0 <= i < b@.len() && b@[i] < n ==> r is None
            &&& n > 0 && b@.len() == m.dflash_target_layer_ids@.len() && (forall|x: int|
                0 <= x < b@.len() ==> n <= #[trigger] b@[x]) ==> r is Some
        },
{
}

/// The buffer of last states has the rows of a batch, and its first row is taken; there
/// is none before it is made.
pub proof fn law_last_state_buffer(
    m: &mut Qwen3_5ForCausalLM,
    n: usize,
    r: BufferPlan,
    before: Option<Slice>,
    after: Option<Slice>,
)
    requires
        call_ensures(Qwen3_5ForCausalLM::preallocate_mtp_hidden_buffer, (m, n), r),
        call_ensures(Qwen3_5ForCausalLM::take_last_hidden_for_mtp, (old(m),), before),
        call_ensures(Qwen3_5ForCausalLM::take_last_hidden_for_mtp, (final(m),), after),
    ensures
        r.rows == n && r.cols == old(m).hidden_size && r.dtype == old(m).dtype,
        final(m).mtp_hidden_buffer == Some(n),
        before is Some == old(m).mtp_hidden_buffer is Some,
        after matches Some(s) && s.start == 0 && s.len == 1,
        final(m).dflash_verify_hidden_buffers == old(m).dflash_verify_hidden_buffers,
        final(m).layers == old(m).layers,
{
}

/// The states of linear attention have a table for each linear layer and a row for each
/// sequence: all channels with the tokens before a step, and the states of all heads.
pub proof fn law_state_tables_hold_all_layers(
    m: Qwen3_5ForCausalLM,
    n: usize,
    r: Option<StateTables>,
)
    requires
        call_ensures(Qwen3_5ForCausalLM::preallocate_mamba_cache, (&m, n), r),
        m.linear_types > 0 ==> 2 * (m.hybrid.num_k_heads * m.hybrid.key_head_dim)
            + m.hybrid.num_v_heads * m.hybrid.value_head_dim <= usize::MAX
            && m.hybrid.conv_kernel_size >= 1,
    ensures
        r is None == (m.linear_types == 0),
        r matches Some(t) ==> {
            let h = m.hybrid;
            &&& t.num_gdn_layers == m.linear_types && t.max_num_seqs == n
            &&& t.d_conv == h.num_k_heads * h.key_head_dim + h.num_k_heads * h.key_head_dim
                + h.num_v_heads * h.value_head_dim
            &&& t.conv_len + 1 == h.conv_kernel_size
            &&& t.num_v_heads == h.num_v_heads && t.key_head_dim == h.key_head_dim
                && t.value_head_dim == h.value_head_dim
        },
{
    let h = m.hybrid;
    let k = h.num_k_heads * h.key_head_dim;
    assert(k * 2 == k + k);
    assert(k >= 0 && h.num_v_heads * h.value_head_dim >= 0) by (nonlinear_arith)
        requires
            k == h.num_k_heads * h.key_head_dim,
    ;
}

// ---- Rolling back ----

spec fn rollbacks_are_sound(
    layers: Seq<Qwen3_5DecoderLayer>,
    keep: usize,
    offset: usize,
    n: int,
    done: Seq<LayerRollback>,
    stop: Option<GdnError>,
) -> bool {
    &&& forall|x: int|
        0 <= x < done.len() ==> (#[trigger] done[x]).layer < n && layers[done[x].layer as int].attn
            is LinearAttention && done[x].rollback.index + 1 == offset + keep
    &&& forall|x: int, y: int|
        0 <= x < y < done.len() ==> (#[trigger] done[x]).layer < (#[trigger] done[y]).layer
    &&& keep == 0 ==> done.len() == 0 && stop is None
    &&& stop is None <==> forall|i: int|
        0 <= i < n ==> can_go_back(#[trigger] layers[i], keep, offset)
    &&& keep > 0 && stop is None ==> forall|i: int|
        0 <= i < n && (#[trigger] layers[i]).attn is LinearAttention ==> is_done(done, i)
}

/// A layer can go back: full attention, and linear attention with a snapshot of the last
/// kept token.
pub open spec fn can_go_back(l: Qwen3_5DecoderLayer, keep: usize, offset: usize) -> bool {
    match l.attn {
        Qwen3_5AttnType::FullAttention(_) => true,
        Qwen3_5AttnType::LinearAttention(net) => keep == 0 || (net.snapshots is Some && offset
            + keep <= net.snapshots->Some_0.0@[0]),
    }
}

/// Layer `i` is among those that go back.
pub open spec fn is_done(done: Seq<LayerRollback>, i: int) -> bool {
    exists|x: int| 0 <= x < done.len() && (#[trigger] done[x]).layer == i
}

proof fn lemma_rollbacks(
    layers: Seq<Qwen3_5DecoderLayer>,
    keep: usize,
    offset: usize,
    state: Dtype,
    n: int,
)
    requires
        0 <= n <= layers.len(),
        layers.len() <= usize::MAX,
    ensures
        rollbacks_are_sound(
            layers,
            keep,
            offset,
            n,
            qwen3_5::rollbacks_of(layers, keep, offset, state, n).0,
            qwen3_5::rollbacks_of(layers, keep, offset, state, n).1,
        ),
    decreases n,
{
    if n > 0 {
        lemma_rollbacks(layers, keep, offset, state, n - 1);
        let before = qwen3_5::rollbacks_of(layers, keep, offset, state, n - 1);
        let all = qwen3_5::rollbacks_of(layers, keep, offset, state, n);
        let (b, a) = (before.0, all.0);
        assert forall|x: int| 0 <= x < a.len() implies (#[trigger] a[x]).layer < n
            && layers[a[x].layer as int].attn is LinearAttention && a[x].rollback.index + 1
            == offset + keep by {
            if x < b.len() {
                assert(a[x] == b[x]);
            }
        }
        assert forall|x: int, y: int| 0 <= x < y < a.len() implies (#[trigger] a[x]).layer < (
        #[trigger] a[y]).layer by {
            assert(a[x] == b[x]);
            if y < b.len() {
                assert(a[y] == b[y]);
            }
        }
        assert(all.1 is None <==> before.1 is None && can_go_back(layers[n - 1], keep, offset));
        if keep > 0 && all.1 is None {
            assert forall|i: int| 0 <= i < n && (#[trigger] layers[i]).attn
                is LinearAttention implies is_done(a, i) by {
                if i < n - 1 {
                    assert(is_done(b, i));
                    let x = choose|x: int| 0 <= x < b.len() && (#[trigger] b[x]).layer == i;
                    assert(a[x] == b[x]);
                } else {
                    assert(a[a.len() - 1].layer == i);
                }
            }
        }
    }
}

/// A model rolls all of its linear layers back, in order, each to the snapshot of the
/// last kept token, up to one that cannot; with no token kept nothing goes back.
pub proof fn law_models_roll_back(
    m: Qwen3_5ForCausalLM,
    keep: usize,
    offset: usize,
    state: Dtype,
    r: RollbackPlan,
    first: RollbackPlan,
)
    requires
        call_ensures(Qwen3_5ForCausalLM::mtp_rollback_mamba_at, (&m, keep, offset, state), r),
        call_ensures(Qwen3_5ForCausalLM::mtp_rollback_mamba, (&m, keep, state), first),
    ensures
        forall|x: int|
            0 <= x < r.rollbacks@.len() ==> (#[trigger] r.rollbacks@[x]).layer < m.layers@.len()
                && m.layers@[r.rollbacks@[x].layer as int].attn is LinearAttention
                && r.rollbacks@[x].rollback.index + 1 == offset + keep,
        forall|x: int, y: int|
            0 <= x < y < r.rollbacks@.len() ==> (#[trigger] r.rollbacks@[x]).layer < (
            #[trigger] r.rollbacks@[y]).layer,
        keep == 0 ==> r.rollbacks@.len() == 0 && r.stop is None,
        r.stop is None <==> forall|i: int|
            0 <= i < m.layers@.len() ==> can_go_back(#[trigger] m.layers@[i], keep, offset),
        keep > 0 && r.stop is None ==> forall|i: int|
            0 <= i < m.layers@.len() && (#[trigger] m.layers@[i]).attn is LinearAttention
                ==> is_done(r.rollbacks@, i),
        offset == 0 ==> first.rollbacks@ == r.rollbacks@ && first.stop == r.stop,
{
    assert(m.layers@.len() == m.layers.len());
    lemma_rollbacks(m.layers@, keep, offset, state, m.layers@.len() as int);
}

} // verus!
