//! A dense hybrid model: full attention and gated delta net layers in turn.
//!
//! The rules here name the parts of a checkpoint, order the steps of a forward
//! pass, resolve the state slots of the sequences, and keep the buffers that
//! speculative decoding reads.

use super::layers::attention::{self, plan_attention, AttentionError, AttentionPlan};
use super::layers::deltanet::{self, GatedDeltaNet, GdnError, HybridConfig, Rollback};
use super::layers::distributed::{Comm, TensorParallelRowLinear};
use super::layers::linear::Slice;
use super::layers::mask::{self, get_attention_causal_mask};
use super::layers::mlp::MLP;
use super::layers::others::{self, embedding, rms_norm, EmbeddingPlan, NormX};
use super::layers::shape;
use super::layers::tensor::Shard;
use super::layers::var_builder::{ModuleAt, VarBuilderX};
use crate::config::Config;
use crate::dtype::Dtype;
use crate::text;
use vstd::prelude::*;

verus! {

/// The norms of a model: in singles, and with weights that count from one unless they
/// were stored ready for use.
pub open spec fn model_norm(config: Config) -> NormX {
    others::rms_plan(
        false,
        config.hidden_size,
        config.rms_norm_eps,
        Dtype::F32,
        others::unsplit(),
        !config.is_mlx_nvfp4,
    )
}

/// The rotary embedding that the layers share.
#[derive(Debug, Clone, Copy, PartialEq, Eq, Structural)]
pub struct RotaryPlan {
    pub dtype: Dtype,
    /// Neighbouring channels are rotated together, not those of the two halves.
    pub is_rope_i: bool,
    /// The bits of a double.
    pub theta: Option<u64>,
}

/// Whether a layer of this type is full attention; every other one is linear.
pub open spec fn is_full(layer_type: Seq<char>) -> bool {
    layer_type == "full_attention"@
}

/// How many of the first `i` layer types are linear attention by name.
pub open spec fn linear_before(types: Seq<String>, i: int) -> int
    decreases i,
{
    if i <= 0 {
        0
    } else {
        linear_before(types, i - 1) + if types[i - 1]@ == "linear_attention"@ {
            1int
        } else {
            0int
        }
    }
}

/// The state index of layer `i`: linear attention layers are counted, any other
/// layer has none and stands as zero.
pub open spec fn state_index(types: Seq<String>, i: int) -> int {
    if types[i]@ == "linear_attention"@ {
        linear_before(types, i)
    } else {
        0
    }
}

proof fn lemma_linear_before_bounds(types: Seq<String>, i: int, j: int)
    requires
        0 <= i <= j,
    ensures
        0 <= linear_before(types, i) <= linear_before(types, j),
        linear_before(types, j) <= j,
    decreases j,
{
    if i < j {
        lemma_linear_before_bounds(types, i, j - 1);
    } else if j > 0 {
        lemma_linear_before_bounds(types, i - 1, j - 1);
    }
}

/// Linear attention layers have their states in the order of the layers, each one
/// of its own, without a gap: the next linear layer has the next index.
pub proof fn law_states_follow_layers(types: Seq<String>, i: int, j: int)
    requires
        0 <= i < j < types.len(),
        types[i]@ == "linear_attention"@,
        types[j]@ == "linear_attention"@,
    ensures
        state_index(types, i) < state_index(types, j) < linear_before(types, types.len() as int),
        (forall|k: int| i < k < j ==> (#[trigger] types[k])@ != "linear_attention"@) ==> state_index(
            types,
            j,
        ) == state_index(types, i) + 1,
{
    lemma_linear_before_bounds(types, i + 1, j);
    lemma_linear_before_bounds(types, j + 1, types.len() as int);
    if forall|k: int| i < k < j ==> (#[trigger] types[k])@ != "linear_attention"@ {
        lemma_no_linear_between(types, i + 1, j);
    }
}

proof fn lemma_no_linear_between(types: Seq<String>, i: int, j: int)
    requires
        0 <= i <= j <= types.len(),
        forall|k: int| i <= k < j ==> (#[trigger] types[k])@ != "linear_attention"@,
    ensures
        linear_before(types, i) == linear_before(types, j),
    decreases j,
{
    if i < j {
        lemma_no_linear_between(types, i, j - 1);
    }
}

// ---- Names ----

/// The names of the parts of a layer.
pub struct LayerNames {
    pub attn: String,
    pub mlp: String,
    pub input_norm: String,
    pub post_attention_norm: String,
}

impl LayerNames {
    /// The names below the module of the layer. In a quantized single file attention
    /// and feed forward parts stand in the layer itself.
    pub open spec fn are(&self, vb: &VarBuilderX, layer_type: Seq<char>) -> bool {
        if vb.is_gguf {
            &&& self.attn@ == vb.path@
            &&& self.mlp@ == vb.path@
            &&& self.input_norm@ == text::dotted(vb.path@, "attn_norm"@)
            &&& self.post_attention_norm@ == text::dotted(vb.path@, "post_attention_norm"@)
        } else {
            &&& self.attn@ == text::dotted(
                vb.path@,
                if is_full(layer_type) {
                    "self_attn"@
                } else {
                    "linear_attn"@
                },
            )
            &&& self.mlp@ == text::dotted(vb.path@, "mlp"@)
            &&& self.input_norm@ == text::dotted(vb.path@, "input_layernorm"@)
            &&& self.post_attention_norm@ == text::dotted(vb.path@, "post_attention_layernorm"@)
        }
    }

    pub fn new(vb: &VarBuilderX, layer_type: &str) -> (r: Self)
        ensures
            r.are(vb, layer_type@),
    {
        if vb.is_qvar_builder() {
            LayerNames {
                attn: text::copy(vb.path()),
                mlp: text::copy(vb.path()),
                input_norm: vb.full_name("attn_norm"),
                post_attention_norm: vb.full_name("post_attention_norm"),
            }
        } else {
            let attn: &str = if text::same_text(layer_type, "full_attention") {
                "self_attn"
            } else {
                "linear_attn"
            };
            LayerNames {
                attn: vb.full_name(attn),
                mlp: vb.full_name("mlp"),
                input_norm: vb.full_name("input_layernorm"),
                post_attention_norm: vb.full_name("post_attention_layernorm"),
            }
        }
    }
}

/// The prefix of the modules as it was given, or `model.`.
pub open spec fn given_prefix(prefix: Option<Seq<char>>) -> Seq<char> {
    match prefix {
        Some(p) => p,
        None => "model."@,
    }
}

/// Whether a checkpoint lists its embedding without the prefix only. Such a model
/// is no decoder, and its head is tied.
pub open spec fn lists_bare(vb: &VarBuilderX, prefix: Option<Seq<char>>) -> bool {
    &&& !vb.is_gguf
    &&& vb.lists("embed_tokens.weight"@)
    &&& !vb.lists(given_prefix(prefix) + "embed_tokens.weight"@)
}

/// The prefix before the names of the parts. A quantized single file has one only
/// where it was given.
pub open spec fn module_prefix(vb: &VarBuilderX, prefix: Option<Seq<char>>) -> Seq<char> {
    if vb.is_gguf {
        match prefix {
            Some(p) => p,
            None => Seq::empty(),
        }
    } else if lists_bare(vb, prefix) {
        Seq::empty()
    } else {
        given_prefix(prefix)
    }
}

/// Whether the head uses the embedding.
pub open spec fn is_tied(vb: &VarBuilderX, prefix: Option<Seq<char>>, setting: Option<bool>) -> bool {
    lists_bare(vb, prefix) || setting == Some(true)
}

/// The names of the parts of a model.
pub struct ModelNames {
    pub embed_tokens: String,
    /// To be followed by a dot and the number of the layer.
    pub layers: String,
    pub norm: String,
    pub lm_head: String,
    /// The head uses the embedding.
    pub tied: bool,
    /// The model cannot decode.
    pub no_decoder: bool,
}

impl ModelNames {
    /// The names below the module of the model.
    pub open spec fn are(
        &self,
        vb: &VarBuilderX,
        prefix: Option<Seq<char>>,
        setting: Option<bool>,
        is_mlx_nvfp4: bool,
    ) -> bool {
        let p = module_prefix(vb, prefix);
        let g = vb.is_gguf;
        let tied = is_tied(vb, prefix, setting);
        &&& self.embed_tokens@ == text::dotted(
            vb.path@,
            p + if g {
                "token_embd"@
            } else {
                "embed_tokens"@
            },
        )
        &&& self.layers@ == p + if g {
            "blk"@
        } else {
            "layers"@
        }
        &&& self.norm@ == text::dotted(
            vb.path@,
            p + if g {
                "output_norm"@
            } else {
                "norm"@
            },
        )
        &&& self.lm_head@ == if tied && is_mlx_nvfp4 {
            text::dotted(vb.path@, Seq::empty())
        } else if tied {
            self.embed_tokens@
        } else if g {
            text::dotted(vb.path@, "output"@)
        } else {
            text::dotted(vb.path@, "lm_head"@)
        }
        &&& self.tied == tied
        &&& self.no_decoder == lists_bare(vb, prefix)
    }

    pub fn new(
        vb: &VarBuilderX,
        prefix: Option<&str>,
        tie_word_embeddings: Option<bool>,
        is_mlx_nvfp4: bool,
    ) -> (r: Self)
        ensures
            r.are(
                vb,
                match prefix {
                    Some(p) => Some(p@),
                    None => None,
                },
                tie_word_embeddings,
                is_mlx_nvfp4,
            ),
    {
        let ghost wanted: Option<Seq<char>> = match prefix {
            Some(p) => Some(p@),
            None => None,
        };
        let given: &str = match prefix {
            Some(p) => p,
            None => "model.",
        };
        proof {
            reveal_strlit("");
            assert(""@ =~= Seq::<char>::empty());
        }
        let g: bool = vb.is_qvar_builder();
        let full: String = text::concat(given, "embed_tokens.weight");
        let bare: bool = !g && vb.has_key("embed_tokens.weight") && !vb.has_key(full.as_str());
        let tied: bool = bare || match tie_word_embeddings {
            Some(t) => t,
            None => false,
        };
        let p: &str = if g {
            match prefix {
                Some(p) => p,
                None => "",
            }
        } else if bare {
            ""
        } else {
            given
        };
        assert(p@ == module_prefix(vb, wanted));
        let embed_part: String = text::concat(
            p,
            if g {
                "token_embd"
            } else {
                "embed_tokens"
            },
        );
        let norm_part: String = text::concat(
            p,
            if g {
                "output_norm"
            } else {
                "norm"
            },
        );
        let layers: String = text::concat(
            p,
            if g {
                "blk"
            } else {
                "layers"
            },
        );
        let embed_tokens: String = vb.full_name(embed_part.as_str());
        let lm_head: String = if tied && is_mlx_nvfp4 {
            vb.full_name("")
        } else if tied {
            text::copy(embed_tokens.as_str())
        } else if g {
            vb.full_name("output")
        } else {
            vb.full_name("lm_head")
        };
        ModelNames {
            embed_tokens,
            layers,
            norm: vb.full_name(norm_part.as_str()),
            lm_head,
            tied,
            no_decoder: bare,
        }
    }

    /// The module of layer `i`.
    pub fn layer(&self, vb: &VarBuilderX, i: usize) -> (r: VarBuilderX)
        ensures
            r@ == vb@.below(self.layers@ + seq!['.'] + text::decimal_text(i as nat)),
    {
        proof {
            reveal_strlit(".");
            assert("."@ =~= seq!['.']);
        }
        let number: String = text::decimal(i);
        let dotted: String = text::concat(self.layers.as_str(), ".");
        let name: String = text::concat(dotted.as_str(), number.as_str());
        vb.pp(name.as_str())
    }
}

// ---- Layers ----

/// The attention of a layer.
pub enum Qwen3_5AttnType {
    FullAttention(AttentionPlan),
    LinearAttention(GatedDeltaNet),
}

/// Why a layer cannot be made.
#[derive(Debug, Clone, Copy, PartialEq, Eq, Structural)]
pub enum LayerError {
    Full(AttentionError),
    Linear(GdnError),
}

/// A layer: attention, then feed forward, each behind a norm and added to its
/// input.
pub struct Qwen3_5DecoderLayer {
    pub attn: Qwen3_5AttnType,
    pub mlp: MLP,
    pub input_layernorm_path: String,
    pub input_layernorm: NormX,
    pub post_attention_layernorm_path: String,
    pub post_attention_layernorm: NormX,
    /// Full attention rotates queries and keys.
    pub rotary_emb: Option<RotaryPlan>,
}

/// Why a layer of this type cannot be made: the refusal of its attention.
pub open spec fn layer_refusal(config: Config, comm: Comm, layer_type: Seq<char>) -> Option<
    LayerError,
> {
    if is_full(layer_type) {
        match attention::attention_refusal(config, comm) {
            Some(e) => Some(LayerError::Full(e)),
            None => None,
        }
    } else {
        match deltanet::resolved_dims(config.hybrid, comm.world_size as int) {
            Err(e) => Some(LayerError::Linear(e)),
            Ok(_) => None,
        }
    }
}

/// What a layer of this type asks of the settings: those of its attention, and that
/// what is made can be loaded.
pub open spec fn layer_fits(
    config: Config,
    comm: Comm,
    layer_type: Seq<char>,
    skip_modules: bool,
) -> bool {
    &&& if is_full(layer_type) {
        attention::fits_attention(config, comm)
    } else {
        deltanet::fits_linear(config, comm)
    }
    &&& layer_refusal(config, comm, layer_type) is None ==> config.loads_dense(skip_modules)
}

impl Qwen3_5DecoderLayer {
    /// Whether this is the layer that the settings describe, in the module `vb`.
    pub open spec fn follows(
        &self,
        vb: ModuleAt,
        comm: Comm,
        rotary: RotaryPlan,
        config: Config,
        layer_type: Seq<char>,
        gdn_layer_idx: int,
        dtype: Dtype,
    ) -> bool {
        &&& match self.attn {
            Qwen3_5AttnType::FullAttention(p) => is_full(layer_type)
                && attention::is_attention_plan(
                config,
                vb.below("self_attn"@),
                comm,
                config.sliding_window,
                false,
                false,
                dtype,
                p,
            ),
            Qwen3_5AttnType::LinearAttention(net) => !is_full(layer_type) && net.follows(
                vb.below("linear_attn"@),
                comm,
                config,
                gdn_layer_idx as usize,
                dtype,
            ),
        }
        &&& self.mlp.follows(
            vb.name_of("mlp"@),
            &comm,
            config.hidden_size,
            config.intermediate_size,
            config.hidden_act,
            false,
            dtype,
        )
        &&& self.input_layernorm_path@ == vb.name_of("input_layernorm"@)
        &&& self.input_layernorm == model_norm(config)
        &&& self.post_attention_layernorm_path@ == vb.name_of("post_attention_layernorm"@)
        &&& self.post_attention_layernorm == model_norm(config)
        &&& self.rotary_emb == if is_full(layer_type) {
            Some(rotary)
        } else {
            None
        }
    }

    /// The layer of a checkpoint, or the refusal of its attention.
    pub fn new(
        vb: &VarBuilderX,
        comm: &Comm,
        rotary_emb: RotaryPlan,
        config: &Config,
        layer_type: &str,
        gdn_layer_idx: usize,
        skip_modules: bool,
        dtype: Dtype,
    ) -> (r: Result<Self, LayerError>)
        requires
            !vb.is_gguf,
            layer_fits(*config, *comm, layer_type@, skip_modules),
        ensures
            match r {
                Ok(layer) => layer_refusal(*config, *comm, layer_type@) is None && layer.follows(
                    vb@,
                    *comm,
                    rotary_emb,
                    *config,
                    layer_type@,
                    gdn_layer_idx as int,
                    dtype,
                ),
                Err(e) => layer_refusal(*config, *comm, layer_type@) == Some(e),
            },
    {
        let names: LayerNames = LayerNames::new(vb, layer_type);
        let add_one: bool = !vb.is_qvar_builder() && !config.is_mlx_nvfp4;
        let full: bool = text::same_text(layer_type, "full_attention");
        let attn: Qwen3_5AttnType = if full {
            let attn_vb: VarBuilderX = vb.pp("self_attn");
            match plan_attention(
                &attn_vb,
                comm,
                config,
                config.sliding_window,
                false,
                false,
                dtype,
            ) {
                Ok(p) => Qwen3_5AttnType::FullAttention(p),
                Err(e) => {
                    return Err(LayerError::Full(e));
                },
            }
        } else {
            let attn_vb: VarBuilderX = vb.pp("linear_attn");
            match GatedDeltaNet::new(&attn_vb, comm, config, gdn_layer_idx, dtype) {
                Ok(net) => Qwen3_5AttnType::LinearAttention(net),
                Err(e) => {
                    return Err(LayerError::Linear(e));
                },
            }
        };
        let mlp_vb: VarBuilderX = vb.pp("mlp");
        let mlp: MLP = MLP::new(
            &mlp_vb,
            comm,
            config.hidden_size,
            config.intermediate_size,
            config.hidden_act,
            config.quantization(),
            skip_modules,
            false,
            dtype,
        );
        let norm: NormX = rms_norm(
            config.hidden_size,
            config.rms_norm_eps,
            vb,
            Dtype::F32,
            add_one,
        );
        Ok(
            Qwen3_5DecoderLayer {
                attn,
                mlp,
                input_layernorm: norm,
                input_layernorm_path: names.input_norm,
                post_attention_layernorm: norm,
                post_attention_layernorm_path: names.post_attention_norm,
                rotary_emb: if full {
                    Some(rotary_emb)
                } else {
                    None
                },
            },
        )
    }

    /// The steps of a forward pass through the layer.
    pub fn plan_forward(&self) -> (r: Vec<BlockStep>)
        ensures
            r@ == block_steps(self.full()),
    {
        let mut steps: Vec<BlockStep> = Vec::new();
        steps.push(BlockStep::InputNorm);
        if self.is_full_attention() {
            steps.push(BlockStep::FullAttention);
        } else {
            steps.push(BlockStep::LinearAttention);
        }
        steps.push(BlockStep::AddInput);
        steps.push(BlockStep::PostAttentionNorm);
        steps.push(BlockStep::FeedForward);
        steps.push(BlockStep::AddAttended);
        steps
    }

    /// Whether the layer is full attention.
    pub open spec fn full(&self) -> bool {
        self.attn is FullAttention
    }

    pub fn is_full_attention(&self) -> (r: bool)
        ensures
            r == self.full(),
    {
        match &self.attn {
            Qwen3_5AttnType::FullAttention(_) => true,
            Qwen3_5AttnType::LinearAttention(_) => false,
        }
    }
}

/// A step through a layer. It works on the current state, beside which the state
/// before the last norm is kept.
#[derive(Debug, Clone, Copy, PartialEq, Eq, Structural)]
pub enum BlockStep {
    /// The state is kept and normed.
    InputNorm,
    /// The state goes through attention, rotated by position.
    FullAttention,
    /// The state goes through linear attention.
    LinearAttention,
    /// The kept state is added to the state.
    AddInput,
    /// The state is kept and normed.
    PostAttentionNorm,
    /// The state goes through the feed forward part.
    FeedForward,
    /// The state is added to the kept state.
    AddAttended,
}

/// The steps through a layer, in order.
pub open spec fn block_steps(full: bool) -> Seq<BlockStep> {
    seq![
        BlockStep::InputNorm,
        if full {
            BlockStep::FullAttention
        } else {
            BlockStep::LinearAttention
        },
        BlockStep::AddInput,
        BlockStep::PostAttentionNorm,
        BlockStep::FeedForward,
        BlockStep::AddAttended,
    ]
}

/// What the parts of a layer do to a state.
#[verifier::reject_recursive_types(T)]
pub struct BlockParts<T> {
    pub input_norm: spec_fn(T) -> T,
    pub attend: spec_fn(T) -> T,
    pub post_attention_norm: spec_fn(T) -> T,
    pub feed_forward: spec_fn(T) -> T,
    pub plus: spec_fn(T, T) -> T,
}

/// The state and the kept state after the first `n` steps.
pub open spec fn after_steps<T>(parts: BlockParts<T>, steps: Seq<BlockStep>, x: T, n: int) -> (T, T)
    decreases n,
{
    if n <= 0 {
        (x, x)
    } else {
        let (state, kept) = after_steps(parts, steps, x, n - 1);
        match steps[n - 1] {
            BlockStep::InputNorm => ((parts.input_norm)(state), state),
            BlockStep::FullAttention => ((parts.attend)(state), kept),
            BlockStep::LinearAttention => ((parts.attend)(state), kept),
            BlockStep::AddInput => ((parts.plus)(state, kept), kept),
            BlockStep::PostAttentionNorm => ((parts.post_attention_norm)(state), state),
            BlockStep::FeedForward => ((parts.feed_forward)(state), kept),
            BlockStep::AddAttended => ((parts.plus)(kept, state), kept),
        }
    }
}

/// A layer adds to its input what attention makes of the normed input, and to that
/// what the feed forward part makes of the normed sum.
pub proof fn law_layer_adds_to_its_input<T>(parts: BlockParts<T>, full: bool, x: T)
    ensures
        ({
            let attended = (parts.plus)((parts.attend)((parts.input_norm)(x)), x);
            after_steps(parts, block_steps(full), x, block_steps(full).len() as int).0 == (
            parts.plus)(
                attended,
                (parts.feed_forward)((parts.post_attention_norm)(attended)),
            )
        }),
{
    reveal_with_fuel(after_steps, 7);
}

// ---- The model ----

/// The model as it is loaded on a rank.
pub struct Qwen3_5ForCausalLM {
    pub names: ModelNames,
    pub embed_tokens: EmbeddingPlan,
    pub rotary_emb: RotaryPlan,
    pub layers: Vec<Qwen3_5DecoderLayer>,
    pub norm: NormX,
    pub lm_head: TensorParallelRowLinear,
    pub hidden_size: usize,
    pub hybrid: HybridConfig,
    /// How many layer types are linear attention.
    pub linear_types: usize,
    pub dtype: Dtype,
    pub vocab_size: usize,
    pub is_qvar_builder: bool,
    pub quantizes_on_load: bool,
    pub higher_precision_required: bool,
    pub sliding_window: Option<usize>,
    /// The rows of the buffer for the last hidden state.
    pub mtp_hidden_buffer: Option<usize>,
    /// The rows of the buffers for the hidden states of the target layers.
    pub dflash_verify_hidden_buffers: Option<Vec<usize>>,
    pub dflash_target_layer_ids: Vec<usize>,
}

impl Qwen3_5ForCausalLM {
    /// Whether this is the model that the settings describe. Layer `i` stands below
    /// the layers, by its number.
    pub open spec fn follows(
        &self,
        vb: &VarBuilderX,
        comm: &Comm,
        config: Config,
        prefix: Option<Seq<char>>,
        dtype: Dtype,
        is_rope_i: bool,
    ) -> bool {
        &&& self.names.are(vb, prefix, config.tie_word_embeddings, config.is_mlx_nvfp4)
        &&& self.embed_tokens == others::embedding_plan(
            false,
            vb.lists_full(text::dotted(self.names.embed_tokens@, "scales"@)),
            config.vocab_size,
            config.hidden_size,
            dtype,
        )
        &&& Some(self.vocab_size) == config.vocab_size
        &&& self.rotary_emb == (RotaryPlan {
            dtype: if config.higher_precision_required {
                Dtype::F32
            } else {
                dtype
            },
            is_rope_i,
            theta: config.rope_theta,
        })
        &&& self.layers@.len() == config.num_hidden_layers
        &&& forall|i: int|
            0 <= i < self.layers@.len() ==> (#[trigger] self.layers@[i]).follows(
                vb@.below(self.names.layers@ + seq!['.'] + text::decimal_text(i as nat)),
                *comm,
                self.rotary_emb,
                config,
                config.layer_types@[i]@,
                state_index(config.layer_types@, i),
                dtype,
            )
        &&& self.norm == model_norm(config)
        &&& self.lm_head.path@ == self.names.lm_head@
        &&& self.lm_head.inner.is_plain(
            config.hidden_size,
            self.vocab_size,
            if self.names.tied && config.is_mlx_nvfp4 {
                Shard { dim: 0, rank: 0, world_size: 0 }
            } else {
                Shard { dim: 1, rank: comm.rank, world_size: comm.world_size }
            },
            dtype,
            false,
        )
        &&& self.lm_head.comm == *comm
        &&& self.hidden_size == config.hidden_size
        &&& self.hybrid == config.hybrid
        &&& self.linear_types == linear_before(
            config.layer_types@,
            config.layer_types@.len() as int,
        )
        &&& self.dtype == dtype
        &&& !self.is_qvar_builder
        &&& self.quantizes_on_load == config.quantizes_on_load
        &&& self.higher_precision_required == config.higher_precision_required
        &&& self.sliding_window == config.sliding_window
        &&& self.mtp_hidden_buffer is None
        &&& self.dflash_verify_hidden_buffers is None
        &&& self.dflash_target_layer_ids@.len() == 0
    }

    /// Whether the linear attention heads divide over the ranks.
    pub open spec fn heads_divide(hybrid: HybridConfig, world_size: usize) -> bool {
        &&& hybrid.num_v_heads as int % world_size as int == 0
        &&& hybrid.num_k_heads as int % world_size as int == 0
    }

    /// The refusal of the first of the first `n` layers that cannot be made.
    pub open spec fn layers_refusal(config: Config, comm: Comm, n: int) -> Option<LayerError>
        decreases n,
    {
        if n <= 0 {
            None
        } else {
            match Self::layers_refusal(config, comm, n - 1) {
                Some(e) => Some(e),
                None => layer_refusal(config, comm, config.layer_types@[n - 1]@),
            }
        }
    }

    /// Why the model cannot be made: the refusal of its first layer that cannot, or
    /// linear attention heads that do not divide over the ranks, whether or not a layer
    /// has them.
    pub open spec fn refusal(config: Config, comm: Comm) -> Option<LayerError> {
        match Self::layers_refusal(config, comm, config.num_hidden_layers as int) {
            Some(e) => Some(e),
            None => if Self::heads_divide(config.hybrid, comm.world_size) {
                None
            } else {
                Some(
                    LayerError::Linear(
                        GdnError::HeadRanks {
                            num_v_heads: config.hybrid.num_v_heads,
                            num_k_heads: config.hybrid.num_k_heads,
                            world_size: comm.world_size,
                        },
                    ),
                )
            },
        }
    }

    /// What the model asks of the settings: every layer that is reached has a type and
    /// fits, and the head of what is made can be loaded.
    pub open spec fn fits(config: Config, comm: Comm, skip_modules: bool) -> bool {
        let n = config.num_hidden_layers as int;
        &&& config.vocab_size is Some
        &&& comm.world_size > 0
        &&& forall|i: int|
            0 <= i < n && #[trigger] Self::layers_refusal(config, comm, i) is None ==> i
                < config.layer_types@.len() && layer_fits(
                config,
                comm,
                config.layer_types@[i]@,
                skip_modules,
            )
        &&& Self::layers_refusal(config, comm, n) is None ==> config.loads_dense(skip_modules)
    }

    proof fn lemma_refusal_stays(config: Config, comm: Comm, m: int, n: int)
        requires
            0 <= m <= n,
            Self::layers_refusal(config, comm, m) is Some,
        ensures
            Self::layers_refusal(config, comm, n) == Self::layers_refusal(config, comm, m),
        decreases n,
    {
        if m < n {
            Self::lemma_refusal_stays(config, comm, m, n - 1);
        }
    }

    /// The model of a checkpoint, with the usual prefix.
    pub fn new(
        vb: &VarBuilderX,
        comm: &Comm,
        config: &Config,
        skip_modules: bool,
        dtype: Dtype,
        is_rope_i: bool,
    ) -> (r: Result<Self, LayerError>)
        requires
            !vb.is_gguf,
            Self::fits(*config, *comm, skip_modules),
        ensures
            match r {
                Ok(m) => Self::refusal(*config, *comm) is None && m.follows(
                    vb,
                    comm,
                    *config,
                    None,
                    dtype,
                    is_rope_i,
                ),
                Err(e) => Self::refusal(*config, *comm) == Some(e),
            },
    {
        Self::new_with_prefix(vb, comm, config, skip_modules, dtype, is_rope_i, None)
    }

    /// The model of a checkpoint. Quantized single files are closed, as is quantized
    /// loading of modules that are not skipped.
    pub fn new_with_prefix(
        vb: &VarBuilderX,
        comm: &Comm,
        config: &Config,
        skip_modules: bool,
        dtype: Dtype,
        is_rope_i: bool,
        prefix: Option<&str>,
    ) -> (r: Result<Self, LayerError>)
        requires
            !vb.is_gguf,
            Self::fits(*config, *comm, skip_modules),
        ensures
            match r {
                Ok(m) => Self::refusal(*config, *comm) is None && m.follows(
                    vb,
                    comm,
                    *config,
                    text::given(prefix),
                    dtype,
                    is_rope_i,
                ),
                Err(e) => Self::refusal(*config, *comm) == Some(e),
            },
    {
        let names: ModelNames = ModelNames::new(
            vb,
            prefix,
            config.tie_word_embeddings,
            config.is_mlx_nvfp4,
        );
        let vocab_size: usize = match config.vocab_size {
            Some(vs) => vs,
            None => 0,
        };
        let embed_vb: VarBuilderX = vb.at(names.embed_tokens.as_str());
        let embed_tokens: EmbeddingPlan = embedding(
            config.vocab_size,
            config.hidden_size,
            &embed_vb,
            dtype,
        );
        let rotary_emb: RotaryPlan = RotaryPlan {
            dtype: if vb.is_qvar_builder() || config.higher_precision_required {
                Dtype::F32
            } else {
                dtype
            },
            is_rope_i,
            theta: config.rope_theta,
        };
        let n: usize = config.num_hidden_layers;
        let mut layers: Vec<Qwen3_5DecoderLayer> = Vec::with_capacity(n);
        let mut next_state: usize = 0;
        let mut i: usize = 0;
        while i < n
            invariant
                i <= n,
                n == config.num_hidden_layers,
                !vb.is_gguf,
                Self::fits(*config, *comm, skip_modules),
                Self::layers_refusal(*config, *comm, i as int) is None,
                i <= config.layer_types@.len(),
                next_state == linear_before(config.layer_types@, i as int),
                next_state <= i,
                layers@.len() == i,
                forall|j: int|
                    0 <= j < i ==> (#[trigger] layers@[j]).follows(
                        vb@.below(names.layers@ + seq!['.'] + text::decimal_text(j as nat)),
                        *comm,
                        rotary_emb,
                        *config,
                        config.layer_types@[j]@,
                        state_index(config.layer_types@, j),
                        dtype,
                    ),
            decreases n - i,
        {
            let layer_type: &str = config.layer_types[i].as_str();
            let state: usize = if text::same_text(layer_type, "linear_attention") {
                let own: usize = next_state;
                next_state += 1;
                own
            } else {
                0
            };
            let layer_vb: VarBuilderX = names.layer(vb, i);
            match Qwen3_5DecoderLayer::new(
                &layer_vb,
                comm,
                rotary_emb,
                config,
                layer_type,
                state,
                skip_modules,
                dtype,
            ) {
                Ok(layer) => {
                    layers.push(layer);
                },
                Err(e) => {
                    proof {
                        Self::lemma_refusal_stays(*config, *comm, i as int + 1, n as int);
                    }
                    return Err(e);
                },
            }
            i += 1;
        }
        let norm: NormX = rms_norm(
            config.hidden_size,
            config.rms_norm_eps,
            vb,
            Dtype::F32,
            !vb.is_qvar_builder() && !config.is_mlx_nvfp4,
        );
        let method: Option<&str> = config.quantization();
        let head_vb: VarBuilderX = vb.at(names.lm_head.as_str());
        let lm_head: TensorParallelRowLinear = if names.tied && config.is_mlx_nvfp4 {
            TensorParallelRowLinear::new_loaded(
                config.hidden_size,
                vocab_size,
                &head_vb,
                Shard { dim: 0, rank: 0, world_size: 0 },
                method,
                skip_modules,
                dtype,
                false,
                comm,
            )
        } else {
            TensorParallelRowLinear::load_with_hints(
                config.hidden_size,
                vocab_size,
                &head_vb,
                comm,
                method,
                skip_modules,
                dtype,
            )
        };
        if config.hybrid.num_v_heads % comm.world_size != 0 || config.hybrid.num_k_heads
            % comm.world_size != 0 {
            return Err(
                LayerError::Linear(
                    GdnError::HeadRanks {
                        num_v_heads: config.hybrid.num_v_heads,
                        num_k_heads: config.hybrid.num_k_heads,
                        world_size: comm.world_size,
                    },
                ),
            );
        }
        Ok(
            Qwen3_5ForCausalLM {
                names,
                embed_tokens,
                rotary_emb,
                layers,
                norm,
                lm_head,
                hidden_size: config.hidden_size,
                hybrid: config.hybrid,
                linear_types: count_linear(&config.layer_types),
                dtype,
                vocab_size,
                is_qvar_builder: vb.is_qvar_builder(),
                quantizes_on_load: config.quantizes_on_load,
                higher_precision_required: config.higher_precision_required,
                sliding_window: config.sliding_window,
                mtp_hidden_buffer: None,
                dflash_verify_hidden_buffers: None,
                dflash_target_layer_ids: Vec::new(),
            },
        )
    }
}

// ---- Input metadata ----

/// A given slot mapping: its type and its length.
#[derive(Debug, Clone, Copy, PartialEq, Eq, Structural)]
pub struct SlotMapping {
    pub dtype: Dtype,
    pub len: usize,
}

/// The device addresses that a decode step reads: the cache row of each token, and how
/// many rows are filled.
#[derive(Debug, Clone, Copy, PartialEq, Eq, Structural)]
pub struct DecodePtrs {
    pub slots: u64,
    pub kv_lens: u64,
}

/// What comes with the tokens of a forward pass.
pub struct InputMetadata {
    pub seqlens: Option<Vec<usize>>,
    pub is_prefill: bool,
    pub is_mtp_verify: bool,
    /// A given mapping to state slots; without one they follow from `sequence_ids`.
    pub mamba_slot_mapping: Option<SlotMapping>,
    pub sequence_ids: Option<Vec<usize>>,
    pub decode_ptrs: Option<DecodePtrs>,
}

/// What the layers read of the metadata.
pub struct LayerMetadata {
    pub seqlens: Vec<usize>,
    pub context_lens: Vec<usize>,
    pub is_prefill: bool,
    pub is_mtp_verify: bool,
    /// The bounds of the packed sequences, for a prefill.
    pub cu_seqlens_q: Option<Vec<u32>>,
    pub decode_ptrs: Option<DecodePtrs>,
}

/// The sum of the first `i` lengths, each as 32 bits.
pub open spec fn bound(lens: Seq<usize>, i: int) -> int
    decreases i,
{
    if i <= 0 {
        0
    } else {
        bound(lens, i - 1) + (lens[i - 1] as u32)
    }
}

pub proof fn lemma_bounds_grow(lens: Seq<usize>, i: int, j: int)
    requires
        0 <= i <= j <= lens.len(),
    ensures
        0 <= bound(lens, i) <= bound(lens, j),
    decreases j,
{
    if i < j {
        lemma_bounds_grow(lens, i, j - 1);
    } else if j > 0 {
        lemma_bounds_grow(lens, i - 1, j - 1);
    }
}

impl InputMetadata {
    /// The lengths, none where they are not given.
    pub open spec fn lens(&self) -> Seq<usize> {
        match self.seqlens {
            Some(s) => s@,
            None => Seq::empty(),
        }
    }

    fn copied_lens(&self) -> (r: Vec<usize>)
        ensures
            r@ == self.lens(),
    {
        match &self.seqlens {
            Some(s) => shape::copy_dims(s.as_slice()),
            None => Vec::new(),
        }
    }

    /// What the layers read. The bounds are there for a prefill of at least one
    /// sequence: zero, and the end of each sequence.
    pub fn vendor(&self) -> (r: LayerMetadata)
        requires
            self.is_prefill ==> bound(self.lens(), self.lens().len() as int) <= u32::MAX,
        ensures
            r.seqlens@ == self.lens(),
            r.context_lens@.len() == 0,
            r.is_prefill == self.is_prefill,
            r.is_mtp_verify == self.is_mtp_verify,
            r.decode_ptrs == self.decode_ptrs,
            match r.cu_seqlens_q {
                Some(v) => self.is_prefill && self.lens().len() > 0 && v@.len() == self.lens().len()
                    + 1 && forall|i: int|
                    0 <= i < v@.len() ==> #[trigger] v@[i] == bound(self.lens(), i),
                None => !self.is_prefill || self.lens().len() == 0,
            },
    {
        let seqlens: Vec<usize> = self.copied_lens();
        let n: usize = seqlens.len();
        let cu_seqlens_q: Option<Vec<u32>> = if self.is_prefill && n > 0 {
            let mut v: Vec<u32> = Vec::new();
            let mut acc: u32 = 0;
            v.push(0);
            let mut i: usize = 0;
            while i < n
                invariant
                    i <= n,
                    n == seqlens@.len(),
                    bound(seqlens@, n as int) <= u32::MAX,
                    acc == bound(seqlens@, i as int),
                    v@.len() == i + 1,
                    forall|j: int| 0 <= j <= i ==> #[trigger] v@[j] == bound(seqlens@, j),
                decreases n - i,
            {
                proof {
                    lemma_bounds_grow(seqlens@, i as int + 1, n as int);
                }
                acc = acc + seqlens[i] as u32;
                v.push(acc);
                i += 1;
            }
            Some(v)
        } else {
            None
        };
        LayerMetadata {
            seqlens,
            context_lens: Vec::new(),
            is_prefill: self.is_prefill,
            is_mtp_verify: self.is_mtp_verify,
            cu_seqlens_q,
            decode_ptrs: self.decode_ptrs,
        }
    }
}

/// The bounds of a prefill start at zero and never fall, and the last one is the
/// number of all tokens. So the recurrence runs through every token once.
pub proof fn law_bounds_ascend(lens: Seq<usize>, bounds: Seq<u32>)
    requires
        bounds.len() == lens.len() + 1,
        forall|i: int| 0 <= i < bounds.len() ==> #[trigger] bounds[i] == bound(lens, i),
    ensures
        deltanet::bounds_ascend(bounds),
        bounds.last() == bound(lens, lens.len() as int),
{
    assert forall|x: int, y: int| 0 <= x <= y < bounds.len() implies bounds[x] <= bounds[y] by {
        lemma_bounds_grow(lens, x, y);
    }
    assert(bounds[0] == bound(lens, 0));
}

// ---- State slots ----

/// Slots that cannot be used.
#[derive(Debug, Clone, Copy, PartialEq, Eq, Structural)]
pub enum SlotError {
    /// A mapping is of 64 bit integers.
    MappingType { got: Dtype },
    EmptyMapping,
    /// Decoding takes one mapped slot per token.
    MappingMismatch { slots: usize, tokens: usize },
    NoSequenceIds,
    EmptySequenceIds,
    NoSlots,
    /// Decoding takes one slot per token.
    SlotMismatch { slots: usize, tokens: usize },
}

/// Where the slots come from.
#[derive(Debug, Clone, Copy, PartialEq, Eq, Structural)]
pub enum SlotSource {
    /// The given mapping as it is.
    Mapping,
    /// The cache, by the ids of the sequences; a missing slot is made.
    Sequences,
}

/// The answer of [`slot_source`].
pub open spec fn source_answer(m: InputMetadata, tokens: usize) -> Result<SlotSource, SlotError> {
    match m.mamba_slot_mapping {
        Some(mapping) => if mapping.dtype != Dtype::I64 {
            Err(SlotError::MappingType { got: mapping.dtype })
        } else if mapping.len == 0 {
            Err(SlotError::EmptyMapping)
        } else if !m.is_prefill && mapping.len != tokens {
            Err(SlotError::MappingMismatch { slots: mapping.len, tokens })
        } else {
            Ok(SlotSource::Mapping)
        },
        None => match m.sequence_ids {
            None => Err(SlotError::NoSequenceIds),
            Some(ids) => if ids@.len() == 0 {
                Err(SlotError::EmptySequenceIds)
            } else {
                Ok(SlotSource::Sequences)
            },
        },
    }
}

/// Where the slots of a forward pass come from.
pub fn slot_source(m: &InputMetadata, tokens: usize) -> (r: Result<SlotSource, SlotError>)
    ensures
        r == source_answer(*m, tokens),
{
    match m.mamba_slot_mapping {
        Some(mapping) => {
            if mapping.dtype != Dtype::I64 {
                return Err(SlotError::MappingType { got: mapping.dtype });
            }
            if mapping.len == 0 {
                return Err(SlotError::EmptyMapping);
            }
            if !m.is_prefill && mapping.len != tokens {
                return Err(SlotError::MappingMismatch { slots: mapping.len, tokens });
            }
            Ok(SlotSource::Mapping)
        },
        None => match &m.sequence_ids {
            None => Err(SlotError::NoSequenceIds),
            Some(ids) => {
                if ids.len() == 0 {
                    return Err(SlotError::EmptySequenceIds);
                }
                Ok(SlotSource::Sequences)
            },
        },
    }
}

/// The slots that the cache gave, as 32 bit numbers.
pub fn resolve_seq_slots(is_prefill: bool, slots: &[usize], tokens: usize) -> (r: Result<
    Vec<u32>,
    SlotError,
>)
    ensures
        if slots@.len() == 0 {
            r == Err::<Vec<u32>, SlotError>(SlotError::NoSlots)
        } else if !is_prefill && slots@.len() != tokens {
            r == Err::<Vec<u32>, SlotError>(
                SlotError::SlotMismatch { slots: slots@.len() as usize, tokens },
            )
        } else {
            r matches Ok(v) && v@.len() == slots@.len() && forall|i: int|
                0 <= i < v@.len() ==> #[trigger] v@[i] == slots@[i] as u32
        },
{
    let n: usize = slots.len();
    if n == 0 {
        return Err(SlotError::NoSlots);
    }
    if !is_prefill && n != tokens {
        return Err(SlotError::SlotMismatch { slots: n, tokens });
    }
    let mut v: Vec<u32> = Vec::with_capacity(n);
    let mut i: usize = 0;
    while i < n
        invariant
            i <= n,
            n == slots@.len(),
            v@.len() == i,
            forall|j: int| 0 <= j < i ==> #[trigger] v@[j] == slots@[j] as u32,
        decreases n - i,
    {
        v.push(slots[i] as u32);
        i += 1;
    }
    Ok(v)
}

// ---- Forward ----

/// A forward pass: what is given and what is asked for.
pub struct ForwardCall<'a> {
    /// The ends of the packed sequences; empty where they are not given.
    pub seqlens: &'a [usize],
    pub is_prefill: bool,
    pub is_mtp_verify: bool,
    /// The rows of the input.
    pub rows: usize,
    /// The input is embedded already: it is not tokens but states.
    pub embeded_inputs: bool,
    /// How many pairs of key and value caches are given.
    pub kv_caches: Option<usize>,
    /// How many visual embeddings are given, where their mask is given too.
    pub deepstacks: Option<usize>,
    pub return_hidden: bool,
    /// The layers whose outputs are collected.
    pub collect: Option<&'a [usize]>,
}

/// The entries to a forward pass.
pub enum ForwardKind<'a> {
    /// The logits.
    Logits,
    /// The hidden states.
    Embedding,
    /// The hidden states, to which the head is then applied.
    WithHidden,
    /// The logits, and the outputs of these layers.
    CollectingLayers(&'a [usize]),
    /// The logits, with visual embeddings where their mask is given.
    WithDeepstack(Option<usize>),
}

impl<'a> ForwardCall<'a> {
    /// The pass that an entry asks for.
    pub fn new(
        kind: ForwardKind<'a>,
        seqlens: &'a [usize],
        is_prefill: bool,
        is_mtp_verify: bool,
        rows: usize,
        kv_caches: Option<usize>,
        embeded_inputs: bool,
    ) -> (r: Self)
        ensures
            r.seqlens == seqlens,
            r.is_prefill == is_prefill,
            r.is_mtp_verify == is_mtp_verify,
            r.rows == rows,
            r.embeded_inputs == embeded_inputs,
            r.kv_caches == kv_caches,
            r.deepstacks == match kind {
                ForwardKind::WithDeepstack(n) => n,
                _ => None,
            },
            r.return_hidden == (kind is Embedding || kind is WithHidden),
            r.collect == match kind {
                ForwardKind::CollectingLayers(ids) => Some(ids),
                _ => None,
            },
    {
        let (deepstacks, return_hidden, collect) = match kind {
            ForwardKind::Logits => (None, false, None),
            ForwardKind::Embedding => (None, true, None),
            ForwardKind::WithHidden => (None, true, None),
            ForwardKind::CollectingLayers(ids) => (None, false, Some(ids)),
            ForwardKind::WithDeepstack(n) => (n, false, None),
        };
        ForwardCall {
            seqlens,
            is_prefill,
            is_mtp_verify,
            rows,
            embeded_inputs,
            kv_caches,
            deepstacks,
            return_hidden,
            collect,
        }
    }
}

/// What happens at a layer, in this order: the layer runs with its cache, its
/// output is collected, copied into buffers, and gets visual embeddings.
pub struct LayerStep {
    pub cache: Option<usize>,
    pub collect: bool,
    pub verify_buffers: Vec<usize>,
    pub deepstack: bool,
}

/// What a forward pass gives.
#[derive(Debug, Clone, Copy, PartialEq, Eq, Structural)]
pub enum ForwardEnd {
    /// The normed states, in singles.
    Hidden,
    /// The logits.
    Logits(HeadTypes),
}

/// How the head is applied: the conversions before and after it.
#[derive(Debug, Clone, Copy, PartialEq, Eq, Structural)]
pub struct HeadTypes {
    pub before: Option<Dtype>,
    pub after: Option<Dtype>,
}

/// The steps of a forward pass.
pub struct ForwardPlan {
    pub masks: Option<Vec<Vec<u32>>>,
    /// The tokens of the input are embedded before the first layer; otherwise the first
    /// layer takes the input as it is.
    pub embeds: bool,
    /// The input of the first layer is collected too, in front of all others.
    pub collect_input: bool,
    pub steps: Vec<LayerStep>,
    /// The rows that go on after the layers: the last one of each sequence.
    pub select: Option<Vec<u32>>,
    /// The normed states are copied into the buffer for the last hidden state.
    pub copy_to_mtp: bool,
    pub end: ForwardEnd,
}

/// How many of the first `i` layers are full attention.
pub open spec fn full_before(layers: Seq<Qwen3_5DecoderLayer>, i: int) -> int
    decreases i,
{
    if i <= 0 {
        0
    } else {
        full_before(layers, i - 1) + if layers[i - 1].full() {
            1int
        } else {
            0int
        }
    }
}

proof fn lemma_full_before_bounds(layers: Seq<Qwen3_5DecoderLayer>, i: int, j: int)
    requires
        0 <= i <= j,
    ensures
        0 <= full_before(layers, i) <= full_before(layers, j),
        full_before(layers, j) <= j,
    decreases j,
{
    if i < j {
        lemma_full_before_bounds(layers, i, j - 1);
    } else if j > 0 {
        lemma_full_before_bounds(layers, i - 1, j - 1);
    }
}

/// The buffers among the first `n` that take the output of layer `layer`: their
/// target is the layer, they exist, and the rows fit.
pub open spec fn verify_targets(
    ids: Seq<usize>,
    buffers: Option<Vec<usize>>,
    layer: usize,
    rows: usize,
    n: int,
) -> Seq<usize>
    decreases n,
{
    if n <= 0 {
        Seq::empty()
    } else {
        let rest = verify_targets(ids, buffers, layer, rows, n - 1);
        let b = n - 1;
        if ids[b] == layer && (buffers matches Some(bs) && b < bs@.len() && rows <= bs@[b]) {
            rest.push(b as usize)
        } else {
            rest
        }
    }
}

/// The last row of each sequence.
pub open spec fn last_rows(ends: Seq<usize>) -> Seq<u32> {
    Seq::new(ends.len(), |i: int| ((ends[i] as u32) - 1) as u32)
}

impl Qwen3_5ForCausalLM {
    /// The conversion of embedded tokens: quantized weights compute in singles.
    pub fn embed_forward(&self, embedded: Dtype) -> (r: Option<Dtype>)
        ensures
            r == if (self.is_qvar_builder || self.quantizes_on_load) && embedded != Dtype::F32 {
                Some(Dtype::F32)
            } else {
                None
            },
    {
        if (self.is_qvar_builder || self.quantizes_on_load) && embedded != Dtype::F32 {
            Some(Dtype::F32)
        } else {
            None
        }
    }

    /// The conversions around the head.
    pub open spec fn head_types(&self) -> HeadTypes {
        if self.is_qvar_builder {
            HeadTypes { before: None, after: None }
        } else {
            HeadTypes { before: Some(self.dtype), after: Some(Dtype::F32) }
        }
    }

    /// How the head is applied to hidden states.
    pub fn forward_lm_head(&self) -> (r: HeadTypes)
        ensures
            r == self.head_types(),
    {
        if self.is_qvar_builder {
            HeadTypes { before: None, after: None }
        } else {
            HeadTypes { before: Some(self.dtype), after: Some(Dtype::F32) }
        }
    }

    /// The buffers that take the output of a layer.
    pub fn copy_into_verify_buffer(&self, layer: usize, rows: usize) -> (r: Vec<usize>)
        ensures
            r@ == verify_targets(
                self.dflash_target_layer_ids@,
                self.dflash_verify_hidden_buffers,
                layer,
                rows,
                self.dflash_target_layer_ids@.len() as int,
            ),
    {
        let n: usize = self.dflash_target_layer_ids.len();
        let mut out: Vec<usize> = Vec::new();
        let mut b: usize = 0;
        while b < n
            invariant
                b <= n,
                n == self.dflash_target_layer_ids@.len(),
                out@ == verify_targets(
                    self.dflash_target_layer_ids@,
                    self.dflash_verify_hidden_buffers,
                    layer,
                    rows,
                    b as int,
                ),
            decreases n - b,
        {
            if self.dflash_target_layer_ids[b] == layer {
                match &self.dflash_verify_hidden_buffers {
                    Some(bs) => {
                        if b < bs.len() && rows <= bs[b] {
                            out.push(b);
                        }
                    },
                    None => {},
                }
            }
            b += 1;
        }
        out
    }

    /// Whether `s` is the step of layer `i`. Full attention layers take the caches
    /// in order.
    pub open spec fn is_step(&self, c: ForwardCall, i: int, s: LayerStep) -> bool {
        &&& s.cache == if self.layers@[i].full() && c.kv_caches is Some {
            Some(full_before(self.layers@, i) as usize)
        } else {
            None
        }
        &&& s.collect == (c.collect matches Some(ids) && ids@.contains(i as usize))
        &&& s.verify_buffers@ == if c.is_mtp_verify {
            verify_targets(
                self.dflash_target_layer_ids@,
                self.dflash_verify_hidden_buffers,
                i as usize,
                c.rows,
                self.dflash_target_layer_ids@.len() as int,
            )
        } else {
            Seq::empty()
        }
        &&& s.deepstack == (c.deepstacks matches Some(n) && i < n)
    }

    /// Whether only the last row of each sequence goes on.
    pub open spec fn selects(c: ForwardCall) -> bool {
        c.seqlens@.len() > 0 && (c.collect is Some || !c.return_hidden)
    }

    /// The rows after the layers.
    pub open spec fn rows_left(c: ForwardCall) -> int {
        if Self::selects(c) {
            c.seqlens@.len() as int
        } else {
            c.rows as int
        }
    }

    /// What a forward pass needs to be planned: enough caches, ascending ends with
    /// masks that can be held, and no empty sequence where rows are selected.
    pub open spec fn can_plan(&self, c: ForwardCall) -> bool {
        &&& c.kv_caches matches Some(n) ==> full_before(self.layers@, self.layers@.len() as int)
            <= n
        &&& c.is_prefill ==> forall|s: int|
            0 <= s < c.seqlens@.len() ==> 0 <= #[trigger] mask::seq_len(short(c.seqlens@), s)
                && mask::seq_len(short(c.seqlens@), s) * mask::seq_len(short(c.seqlens@), s)
                <= usize::MAX
        &&& Self::selects(c) ==> forall|s: int|
            0 <= s < c.seqlens@.len() ==> (#[trigger] c.seqlens@[s]) as u32 >= 1
        &&& Self::rows_left(c) * self.hidden_size <= usize::MAX
        &&& self.mtp_hidden_buffer matches Some(rows) ==> rows * self.hidden_size <= usize::MAX
    }

    /// Whether `p` is the plan of a forward pass.
    pub open spec fn is_forward_plan(&self, c: ForwardCall, p: ForwardPlan) -> bool {
        let hidden = c.collect is None && c.return_hidden;
        &&& p.masks is Some <==> c.is_prefill
        &&& p.masks matches Some(masks) ==> masks@.len() == c.seqlens@.len() && forall|s: int|
            0 <= s < masks@.len() ==> mask::is_causal_mask(
                (#[trigger] masks@[s])@,
                mask::seq_len(short(c.seqlens@), s),
                self.sliding_window,
            )
        &&& p.embeds == !c.embeded_inputs
        &&& p.collect_input == c.collect is Some
        &&& p.steps@.len() == self.layers@.len()
        &&& forall|i: int| 0 <= i < p.steps@.len() ==> self.is_step(c, i, #[trigger] p.steps@[i])
        &&& match p.select {
            Some(rows) => Self::selects(c) && rows@ == last_rows(c.seqlens@),
            None => !Self::selects(c),
        }
        &&& p.end == if hidden {
            ForwardEnd::Hidden
        } else {
            ForwardEnd::Logits(self.head_types())
        }
        &&& p.copy_to_mtp == (c.collect is None && !hidden && (
        self.mtp_hidden_buffer matches Some(rows) && Self::rows_left(c) * self.hidden_size <= rows
            * self.hidden_size))
    }

    /// The steps of a forward pass.
    pub fn plan_forward(&self, c: &ForwardCall) -> (r: ForwardPlan)
        requires
            self.can_plan(*c),
        ensures
            self.is_forward_plan(*c, r),
    {
        let ends: Vec<u32> = shortened(c.seqlens);
        let masks: Option<Vec<Vec<u32>>> = get_attention_causal_mask(
            ends.as_slice(),
            self.sliding_window,
            c.is_prefill,
        );
        let n: usize = self.layers.len();
        let mut steps: Vec<LayerStep> = Vec::with_capacity(n);
        let mut next_cache: usize = 0;
        let mut i: usize = 0;
        while i < n
            invariant
                i <= n,
                n == self.layers@.len(),
                next_cache == if c.kv_caches is Some {
                    full_before(self.layers@, i as int)
                } else {
                    0
                },
                next_cache <= i,
                steps@.len() == i,
                forall|j: int| 0 <= j < i ==> self.is_step(*c, j, #[trigger] steps@[j]),
            decreases n - i,
        {
            let cache: Option<usize> = if self.layers[i].is_full_attention() && c.kv_caches.is_some() {
                let own: usize = next_cache;
                next_cache += 1;
                Some(own)
            } else {
                None
            };
            let collect: bool = match c.collect {
                Some(ids) => listed(ids, i),
                None => false,
            };
            let verify_buffers: Vec<usize> = if c.is_mtp_verify {
                self.copy_into_verify_buffer(i, c.rows)
            } else {
                Vec::new()
            };
            let deepstack: bool = match c.deepstacks {
                Some(d) => i < d,
                None => false,
            };
            steps.push(LayerStep { cache, collect, verify_buffers, deepstack });
            i += 1;
        }
        let hidden: bool = c.collect.is_none() && c.return_hidden;
        let selects: bool = c.seqlens.len() > 0 && (c.collect.is_some() || !c.return_hidden);
        let select: Option<Vec<u32>> = if selects {
            Some(rows_before(ends.as_slice(), Ghost(c.seqlens@)))
        } else {
            None
        };
        let rows: usize = if selects {
            c.seqlens.len()
        } else {
            c.rows
        };
        proof {
            assert(rows * self.hidden_size >= 0) by (nonlinear_arith);
        }
        let copy_to_mtp: bool = c.collect.is_none() && !hidden && match self.mtp_hidden_buffer {
            Some(buffer_rows) => {
                proof {
                    assert(buffer_rows * self.hidden_size >= 0) by (nonlinear_arith);
                }
                rows * self.hidden_size <= buffer_rows * self.hidden_size
            },
            None => false,
        };
        let end: ForwardEnd = if hidden {
            ForwardEnd::Hidden
        } else {
            ForwardEnd::Logits(self.forward_lm_head())
        };
        ForwardPlan {
            masks,
            embeds: !c.embeded_inputs,
            collect_input: c.collect.is_some(),
            steps,
            select,
            copy_to_mtp,
            end,
        }
    }

    /// How many layers are full attention.
    pub fn full_attention_count(&self) -> (r: usize)
        ensures
            r == full_before(self.layers@, self.layers@.len() as int),
    {
        let n: usize = self.layers.len();
        let mut count: usize = 0;
        let mut i: usize = 0;
        while i < n
            invariant
                i <= n,
                n == self.layers@.len(),
                count == full_before(self.layers@, i as int),
                count <= i,
            decreases n - i,
        {
            if self.layers[i].is_full_attention() {
                count += 1;
            }
            i += 1;
        }
        count
    }

    /// How many layers are linear attention.
    pub fn gdn_layer_count(&self) -> (r: usize)
        ensures
            r == self.layers@.len() - full_before(self.layers@, self.layers@.len() as int),
    {
        proof {
            lemma_full_before_bounds(self.layers@, 0, self.layers@.len() as int);
        }
        self.layers.len() - self.full_attention_count()
    }

    pub fn get_vocab_size(&self) -> (r: usize)
        ensures
            r == self.vocab_size,
    {
        self.vocab_size
    }

    pub fn dtype(&self) -> (r: Dtype)
        ensures
            r == self.dtype,
    {
        self.dtype
    }
}

/// Ends as 32 bit numbers.
pub open spec fn short(ends: Seq<usize>) -> Seq<u32> {
    Seq::new(ends.len(), |i: int| ends[i] as u32)
}

fn shortened(ends: &[usize]) -> (r: Vec<u32>)
    ensures
        r@ == short(ends@),
{
    let n: usize = ends.len();
    let mut v: Vec<u32> = Vec::with_capacity(n);
    let mut i: usize = 0;
    while i < n
        invariant
            i <= n,
            n == ends@.len(),
            v@.len() == i,
            forall|j: int| 0 <= j < i ==> #[trigger] v@[j] == ends@[j] as u32,
        decreases n - i,
    {
        v.push(ends[i] as u32);
        i += 1;
    }
    v
}

fn rows_before(short_ends: &[u32], ends: Ghost<Seq<usize>>) -> (r: Vec<u32>)
    requires
        short_ends@ == short(ends@),
        forall|s: int| 0 <= s < ends@.len() ==> (#[trigger] ends@[s]) as u32 >= 1,
    ensures
        r@ == last_rows(ends@),
{
    let n: usize = short_ends.len();
    let mut v: Vec<u32> = Vec::with_capacity(n);
    let mut i: usize = 0;
    while i < n
        invariant
            i <= n,
            n == short_ends@.len(),
            short_ends@ == short(ends@),
            forall|s: int| 0 <= s < ends@.len() ==> (#[trigger] ends@[s]) as u32 >= 1,
            v@.len() == i,
            forall|j: int| 0 <= j < i ==> #[trigger] v@[j] == last_rows(ends@)[j],
        decreases n - i,
    {
        assert(short_ends@[i as int] == ends@[i as int] as u32);
        v.push(short_ends[i] - 1);
        i += 1;
    }
    v
}

fn listed(ids: &[usize], id: usize) -> (r: bool)
    ensures
        r == ids@.contains(id),
{
    let n: usize = ids.len();
    let mut i: usize = 0;
    while i < n
        invariant
            i <= n,
            n == ids@.len(),
            forall|j: int| 0 <= j < i ==> ids@[j] != id,
        decreases n - i,
    {
        if ids[i] == id {
            return true;
        }
        i += 1;
    }
    false
}

/// A collected state.
pub enum Collected {
    /// What the first layer takes: embedded tokens, or the input as it is.
    Input { embedded: bool },
    /// What layer `index` gave.
    Layer { index: int },
}

/// What is collected up to layer `n`, in order.
pub open spec fn collected(p: ForwardPlan, n: int) -> Seq<Collected>
    decreases n,
{
    if n <= 0 {
        if p.collect_input {
            seq![Collected::Input { embedded: p.embeds }]
        } else {
            Seq::empty()
        }
    } else if p.steps@[n - 1].collect {
        collected(p, n - 1).push(Collected::Layer { index: n - 1 })
    } else {
        collected(p, n - 1)
    }
}

/// How many of the first `n` layers are asked for.
pub open spec fn asked_before(ids: Seq<usize>, n: int) -> int
    decreases n,
{
    if n <= 0 {
        0
    } else {
        asked_before(ids, n - 1) + if ids.contains((n - 1) as usize) {
            1int
        } else {
            0int
        }
    }
}

/// A pass that collects gives the input of the first layer, embedded unless it came
/// embedded, and then the states of the layers that are asked for, in the order of the
/// layers, whatever order they are asked for in. A pass that does not collect gives
/// nothing.
pub proof fn law_collected_states(
    m: Qwen3_5ForCausalLM,
    c: ForwardCall,
    p: ForwardPlan,
    n: int,
)
    requires
        m.is_forward_plan(c, p),
        0 <= n <= m.layers@.len(),
    ensures
        c.collect is None ==> collected(p, n).len() == 0,
        c.collect matches Some(ids) ==> {
            let states = collected(p, n);
            &&& states.len() == 1 + asked_before(ids@, n)
            &&& states[0] == (Collected::Input { embedded: !c.embeded_inputs })
            &&& forall|i: int|
                0 <= i < n && ids@.contains(#[trigger] (i as usize)) ==> 0 <= asked_before(ids@, i)
                    < asked_before(ids@, n) && states[1 + asked_before(ids@, i)] == (
                Collected::Layer { index: i })
        },
    decreases n,
{
    if n > 0 {
        law_collected_states(m, c, p, n - 1);
        assert(m.is_step(c, n - 1, p.steps@[n - 1]));
        if c.collect is Some {
            let ids = c.collect->Some_0@;
            lemma_asked_grows(ids, 0, n - 1);
            assert forall|i: int| 0 <= i < n && ids.contains(#[trigger] (i as usize)) implies 0
                <= asked_before(ids, i) < asked_before(ids, n) && collected(p, n)[1 + asked_before(
                ids,
                i,
            )] == (Collected::Layer { index: i }) by {
                if i < n - 1 {
                    assert(ids.contains(i as usize));
                    lemma_asked_grows(ids, 0, i);
                }
            }
        }
    }
}

proof fn lemma_asked_grows(ids: Seq<usize>, i: int, j: int)
    requires
        0 <= i <= j,
    ensures
        0 <= asked_before(ids, i) <= asked_before(ids, j),
    decreases j,
{
    if i < j {
        lemma_asked_grows(ids, i, j - 1);
    } else if j > 0 {
        lemma_asked_grows(ids, i - 1, j - 1);
    }
}

/// Full attention layers take the caches in the order of the layers, each one of
/// its own, and as many caches are enough as there are full attention layers.
pub proof fn law_caches_follow_layers(layers: Seq<Qwen3_5DecoderLayer>, i: int, j: int)
    requires
        0 <= i < j < layers.len(),
        layers[i].full(),
        layers[j].full(),
    ensures
        0 <= full_before(layers, i) < full_before(layers, j) < full_before(
            layers,
            layers.len() as int,
        ),
{
    lemma_full_before_bounds(layers, i, i);
    lemma_full_before_bounds(layers, i + 1, j);
    lemma_full_before_bounds(layers, j + 1, layers.len() as int);
}

// ---- Buffers ----

/// A buffer to be made: its shape and type.
#[derive(Debug, Clone, Copy, PartialEq, Eq, Structural)]
pub struct BufferPlan {
    pub rows: usize,
    pub cols: usize,
    pub dtype: Dtype,
}

/// The state tables of the linear attention layers.
#[derive(Debug, Clone, Copy, PartialEq, Eq, Structural)]
pub struct StateTables {
    pub num_gdn_layers: usize,
    pub max_num_seqs: usize,
    pub d_conv: usize,
    pub conv_len: usize,
    pub num_v_heads: usize,
    pub key_head_dim: usize,
    pub value_head_dim: usize,
}

/// The channels of the convolution on a single rank: queries, keys and values.
pub open spec fn conv_channels(h: HybridConfig) -> int {
    h.num_k_heads * h.key_head_dim * 2 + h.num_v_heads * h.value_head_dim
}

impl Qwen3_5ForCausalLM {
    /// The type of the residual stream: singles for quantized or more precise models.
    pub open spec fn residual_dtype(&self) -> Dtype {
        if self.is_qvar_builder || self.quantizes_on_load || self.higher_precision_required {
            Dtype::F32
        } else {
            self.dtype
        }
    }

    /// Sets the target layers; each one gets a buffer of the returned shape.
    pub fn preallocate_dflash_verify_buffers(
        &mut self,
        target_layer_ids: &[usize],
        max_verify_len: usize,
    ) -> (r: BufferPlan)
        ensures
            r == (BufferPlan {
                rows: max_verify_len,
                cols: old(self).hidden_size,
                dtype: old(self).residual_dtype(),
            }),
            final(self).dflash_verify_hidden_buffers matches Some(rows) && rows@ == Seq::new(
                target_layer_ids@.len(),
                |i: int| max_verify_len,
            ),
            final(self).dflash_target_layer_ids@ == target_layer_ids@,
            *final(self) == (Qwen3_5ForCausalLM {
                dflash_verify_hidden_buffers: final(self).dflash_verify_hidden_buffers,
                dflash_target_layer_ids: final(self).dflash_target_layer_ids,
                ..*old(self)
            }),
    {
        let dtype: Dtype = if self.is_qvar_builder || self.quantizes_on_load
            || self.higher_precision_required {
            Dtype::F32
        } else {
            self.dtype
        };
        let n: usize = target_layer_ids.len();
        let mut rows: Vec<usize> = Vec::with_capacity(n);
        let mut i: usize = 0;
        while i < n
            invariant
                i <= n,
                rows@ == Seq::new(i as nat, |j: int| max_verify_len),
            decreases n - i,
        {
            rows.push(max_verify_len);
            i += 1;
        }
        self.dflash_verify_hidden_buffers = Some(rows);
        self.dflash_target_layer_ids = shape::copy_dims(target_layer_ids);
        BufferPlan { rows: max_verify_len, cols: self.hidden_size, dtype }
    }

    /// Whether the target layers' states of `num_tokens` tokens can be taken.
    pub open spec fn can_take(&self, num_tokens: usize) -> bool {
        &&& self.dflash_verify_hidden_buffers matches Some(rows)
        &&& rows@.len() == self.dflash_target_layer_ids@.len()
        &&& num_tokens > 0
        &&& forall|i: int| 0 <= i < rows@.len() ==> num_tokens <= #[trigger] rows@[i]
    }

    /// The rows of each buffer that hold the states of the last verify pass.
    pub fn take_dflash_verify_hiddens(&self, num_tokens: usize) -> (r: Option<Vec<Slice>>)
        ensures
            match r {
                Some(parts) => self.can_take(num_tokens) && parts@ == Seq::new(
                    self.dflash_target_layer_ids@.len(),
                    |i: int| Slice { start: 0, len: num_tokens },
                ),
                None => !self.can_take(num_tokens),
            },
    {
        match &self.dflash_verify_hidden_buffers {
            None => None,
            Some(rows) => {
                let n: usize = rows.len();
                if n != self.dflash_target_layer_ids.len() || num_tokens == 0 {
                    return None;
                }
                let mut parts: Vec<Slice> = Vec::with_capacity(n);
                let mut i: usize = 0;
                while i < n
                    invariant
                        i <= n,
                        n == rows@.len(),
                        n == self.dflash_target_layer_ids@.len(),
                        self.dflash_verify_hidden_buffers == Some(*rows),
                        num_tokens > 0,
                        parts@ == Seq::new(
                            i as nat,
                            |j: int| Slice { start: 0, len: num_tokens },
                        ),
                        forall|j: int| 0 <= j < i ==> num_tokens <= #[trigger] rows@[j],
                    decreases n - i,
                {
                    if num_tokens > rows[i] {
                        return None;
                    }
                    parts.push(Slice { start: 0, len: num_tokens });
                    i += 1;
                }
                Some(parts)
            },
        }
    }

    /// The buffer for the last hidden state, one row for each sequence of a batch.
    pub fn preallocate_mtp_hidden_buffer(&mut self, max_batch_size: usize) -> (r: BufferPlan)
        ensures
            r == (BufferPlan {
                rows: max_batch_size,
                cols: old(self).hidden_size,
                dtype: old(self).dtype,
            }),
            *final(self) == (Qwen3_5ForCausalLM {
                mtp_hidden_buffer: Some(max_batch_size),
                ..*old(self)
            }),
    {
        self.mtp_hidden_buffer = Some(max_batch_size);
        BufferPlan { rows: max_batch_size, cols: self.hidden_size, dtype: self.dtype }
    }

    /// The row of the buffer that holds the last hidden state of a single sequence.
    pub fn take_last_hidden_for_mtp(&self) -> (r: Option<Slice>)
        ensures
            r == if self.mtp_hidden_buffer is Some {
                Some(Slice { start: 0, len: 1 })
            } else {
                None
            },
    {
        if self.mtp_hidden_buffer.is_some() {
            Some(Slice { start: 0, len: 1 })
        } else {
            None
        }
    }

    /// The rollbacks of all linear attention layers after a verification from the first
    /// snapshot on.
    pub fn mtp_rollback_mamba(&self, keep_tokens: usize, state_dtype: Dtype) -> (r: RollbackPlan)
        requires
            snapshots_agree(self.layers@),
        ensures
            r.is(self.layers@, keep_tokens, 0, state_dtype),
    {
        self.mtp_rollback_mamba_at(keep_tokens, 0, state_dtype)
    }

    /// The rollbacks of all linear attention layers after a verification, in the order
    /// of the layers.
    pub fn mtp_rollback_mamba_at(
        &self,
        keep_tokens: usize,
        snapshot_offset: usize,
        state_dtype: Dtype,
    ) -> (r: RollbackPlan)
        requires
            snapshots_agree(self.layers@),
        ensures
            r.is(self.layers@, keep_tokens, snapshot_offset, state_dtype),
    {
        let n: usize = self.layers.len();
        let mut rollbacks: Vec<LayerRollback> = Vec::new();
        let mut stop: Option<GdnError> = None;
        let mut i: usize = 0;
        while i < n && stop.is_none()
            invariant
                i <= n,
                n == self.layers@.len(),
                snapshots_agree(self.layers@),
                (rollbacks@, stop) == rollbacks_of(
                    self.layers@,
                    keep_tokens,
                    snapshot_offset,
                    state_dtype,
                    i as int,
                ),
            decreases n - i,
        {
            match &self.layers[i].attn {
                Qwen3_5AttnType::FullAttention(_) => {},
                Qwen3_5AttnType::LinearAttention(net) => {
                    assert(self.layers@[i as int].agrees());
                    match net.rollback_mtp_verify_at(keep_tokens, snapshot_offset, state_dtype) {
                        Ok(Some(rollback)) => {
                            rollbacks.push(LayerRollback { layer: i, rollback });
                        },
                        Ok(None) => {},
                        Err(e) => {
                            stop = Some(e);
                        },
                    }
                },
            }
            i += 1;
        }
        proof {
            if stop is Some {
                lemma_rollback_stops(
                    self.layers@,
                    keep_tokens,
                    snapshot_offset,
                    state_dtype,
                    i as int,
                    n as int,
                );
            }
        }
        RollbackPlan { rollbacks, stop }
    }
}

/// The rollback of a layer of the model.
#[derive(Debug, Clone, Copy, PartialEq, Eq, Structural)]
pub struct LayerRollback {
    pub layer: usize,
    pub rollback: Rollback,
}

/// The rollbacks of a model, in order. It may have to stop with an error; the layers
/// before it are rolled back by then.
pub struct RollbackPlan {
    pub rollbacks: Vec<LayerRollback>,
    pub stop: Option<GdnError>,
}

impl Qwen3_5DecoderLayer {
    /// The snapshot buffers of linear attention agree.
    pub open spec fn agrees(&self) -> bool {
        self.attn matches Qwen3_5AttnType::LinearAttention(net) ==> net.snapshots_agree()
    }
}

/// The snapshot buffers of every layer agree.
pub open spec fn snapshots_agree(layers: Seq<Qwen3_5DecoderLayer>) -> bool {
    forall|i: int| 0 <= i < layers.len() ==> (#[trigger] layers[i]).agrees()
}

/// The rollbacks of the first `n` layers, up to the first error.
pub open spec fn rollbacks_of(
    layers: Seq<Qwen3_5DecoderLayer>,
    keep_tokens: usize,
    snapshot_offset: usize,
    state_dtype: Dtype,
    n: int,
) -> (Seq<LayerRollback>, Option<GdnError>)
    decreases n,
{
    if n <= 0 {
        (Seq::empty(), None)
    } else {
        let before = rollbacks_of(layers, keep_tokens, snapshot_offset, state_dtype, n - 1);
        if before.1 is Some {
            before
        } else {
            match layers[n - 1].attn {
                Qwen3_5AttnType::FullAttention(_) => before,
                Qwen3_5AttnType::LinearAttention(net) => match net.rolled_back(
                    keep_tokens,
                    snapshot_offset,
                    state_dtype,
                ) {
                    Ok(Some(rollback)) => (
                        before.0.push(LayerRollback { layer: (n - 1) as usize, rollback }),
                        None,
                    ),
                    Ok(None) => before,
                    Err(e) => (before.0, Some(e)),
                },
            }
        }
    }
}

impl RollbackPlan {
    /// Whether these are the rollbacks of all layers.
    pub open spec fn is(
        &self,
        layers: Seq<Qwen3_5DecoderLayer>,
        keep_tokens: usize,
        snapshot_offset: usize,
        state_dtype: Dtype,
    ) -> bool {
        (self.rollbacks@, self.stop) == rollbacks_of(
            layers,
            keep_tokens,
            snapshot_offset,
            state_dtype,
            layers.len() as int,
        )
    }
}

proof fn lemma_rollback_stops(
    layers: Seq<Qwen3_5DecoderLayer>,
    keep_tokens: usize,
    snapshot_offset: usize,
    state_dtype: Dtype,
    m: int,
    n: int,
)
    requires
        0 <= m <= n,
        rollbacks_of(layers, keep_tokens, snapshot_offset, state_dtype, m).1 is Some,
    ensures
        rollbacks_of(layers, keep_tokens, snapshot_offset, state_dtype, n) == rollbacks_of(
            layers,
            keep_tokens,
            snapshot_offset,
            state_dtype,
            m,
        ),
    decreases n,
{
    if m < n {
        lemma_rollback_stops(layers, keep_tokens, snapshot_offset, state_dtype, m, n - 1);
    }
}

/// How many of the first `n` layers are linear attention.
pub open spec fn linear_layers_before(layers: Seq<Qwen3_5DecoderLayer>, n: int) -> int {
    n - full_before(layers, n)
}

impl Qwen3_5DecoderLayer {
    /// Linear attention goes back to the snapshot after `keep_tokens` tokens.
    pub open spec fn goes_back(&self, keep_tokens: usize, state_dtype: Dtype) -> bool {
        self.attn matches Qwen3_5AttnType::LinearAttention(net) ==> net.rolled_back(
            keep_tokens,
            0,
            state_dtype,
        ) matches Ok(Some(r)) && r.index == keep_tokens - 1
    }
}

/// Whether the first `n` layers are rolled back one after another, each linear
/// attention layer to the snapshot after the last kept token.
pub open spec fn all_go_back(
    layers: Seq<Qwen3_5DecoderLayer>,
    keep_tokens: usize,
    state_dtype: Dtype,
    n: int,
) -> bool {
    let (done, stop) = rollbacks_of(layers, keep_tokens, 0, state_dtype, n);
    &&& stop is None
    &&& done.len() == linear_layers_before(layers, n)
    &&& forall|i: int|
        0 <= i < n && !(#[trigger] layers[i]).full() ==> {
            let at = linear_layers_before(layers, i);
            &&& 0 <= at < done.len()
            &&& done[at].layer == i
            &&& done[at].rollback.index == keep_tokens - 1
        }
}

proof fn lemma_layers_go_back(
    layers: Seq<Qwen3_5DecoderLayer>,
    keep_tokens: usize,
    state_dtype: Dtype,
    n: int,
)
    requires
        0 <= n <= layers.len() <= usize::MAX,
        forall|i: int|
            0 <= i < layers.len() ==> (#[trigger] layers[i]).goes_back(keep_tokens, state_dtype),
    ensures
        all_go_back(layers, keep_tokens, state_dtype, n),
    decreases n,
{
    if n > 0 {
        lemma_layers_go_back(layers, keep_tokens, state_dtype, n - 1);
        lemma_full_before_bounds(layers, 0, n - 1);
        assert(layers[n - 1].goes_back(keep_tokens, state_dtype));
        let (before, _) = rollbacks_of(layers, keep_tokens, 0, state_dtype, n - 1);
        let (done, _) = rollbacks_of(layers, keep_tokens, 0, state_dtype, n);
        assert forall|i: int| 0 <= i < n && !(#[trigger] layers[i]).full() implies {
            let at = linear_layers_before(layers, i);
            &&& 0 <= at < done.len()
            &&& done[at].layer == i
            &&& done[at].rollback.index == keep_tokens - 1
        } by {
            if i < n - 1 {
                let at = linear_layers_before(layers, i);
                assert(done[at] == before[at]);
            }
        }
    }
}

proof fn lemma_layer_goes_back(
    layer: Qwen3_5DecoderLayer,
    vb: ModuleAt,
    comm: Comm,
    rotary: RotaryPlan,
    config: Config,
    layer_type: Seq<char>,
    gdn_layer_idx: int,
    dtype: Dtype,
    keep_tokens: usize,
    state_dtype: Dtype,
)
    requires
        layer.follows(vb, comm, rotary, config, layer_type, gdn_layer_idx, dtype),
        config.mtp_enabled,
        0 < keep_tokens,
        keep_tokens <= 16 || keep_tokens <= config.mtp_max_verify_tokens,
    ensures
        layer.agrees(),
        layer.goes_back(keep_tokens, state_dtype),
{
}

/// In a model that settings describe, a verification of up to 16 tokens can be rolled
/// back to any of its tokens: every linear attention layer goes back to the snapshot
/// after the last kept token, one after another, and none stops it.
pub proof fn law_model_rolls_back(
    m: Qwen3_5ForCausalLM,
    vb: &VarBuilderX,
    comm: &Comm,
    config: Config,
    prefix: Option<Seq<char>>,
    dtype: Dtype,
    is_rope_i: bool,
    keep_tokens: usize,
    state_dtype: Dtype,
)
    requires
        m.follows(vb, comm, config, prefix, dtype, is_rope_i),
        config.mtp_enabled,
        0 < keep_tokens,
        keep_tokens <= 16 || keep_tokens <= config.mtp_max_verify_tokens,
    ensures
        snapshots_agree(m.layers@),
        all_go_back(m.layers@, keep_tokens, state_dtype, m.layers@.len() as int),
{
    assert forall|i: int| 0 <= i < m.layers@.len() implies (#[trigger] m.layers@[i]).agrees()
        && m.layers@[i].goes_back(keep_tokens, state_dtype) by {
        lemma_layer_goes_back(
            m.layers@[i],
            vb@.below(m.names.layers@ + seq!['.'] + text::decimal_text(i as nat)),
            *comm,
            m.rotary_emb,
            config,
            config.layer_types@[i]@,
            state_index(config.layer_types@, i),
            dtype,
            keep_tokens,
            state_dtype,
        );
    }
    lemma_layers_go_back(m.layers@, keep_tokens, state_dtype, m.layers@.len() as int);
}

fn count_linear(layer_types: &Vec<String>) -> (r: usize)
    ensures
        r == linear_before(layer_types@, layer_types@.len() as int),
{
    let n: usize = layer_types.len();
    let mut count: usize = 0;
    let mut i: usize = 0;
    while i < n
        invariant
            i <= n,
            n == layer_types@.len(),
            count == linear_before(layer_types@, i as int),
            count <= i,
        decreases n - i,
    {
        if text::same_text(layer_types[i].as_str(), "linear_attention") {
            count += 1;
        }
        i += 1;
    }
    count
}

impl Qwen3_5ForCausalLM {
    /// The state tables of the model, for a single rank; none without linear attention.
    pub fn preallocate_mamba_cache(&self, max_num_seqs: usize) -> (r: Option<StateTables>)
        requires
            self.linear_types > 0 ==> conv_channels(self.hybrid) <= usize::MAX
                && self.hybrid.conv_kernel_size >= 1,
        ensures
            r == if self.linear_types == 0 {
                None
            } else {
                Some(
                    StateTables {
                        num_gdn_layers: self.linear_types,
                        max_num_seqs,
                        d_conv: conv_channels(self.hybrid) as usize,
                        conv_len: (self.hybrid.conv_kernel_size - 1) as usize,
                        num_v_heads: self.hybrid.num_v_heads,
                        key_head_dim: self.hybrid.key_head_dim,
                        value_head_dim: self.hybrid.value_head_dim,
                    },
                )
            },
    {
        if self.linear_types == 0 {
            return None;
        }
        let h: HybridConfig = self.hybrid;
        proof {
            let qk = h.num_k_heads * h.key_head_dim;
            assert(qk >= 0) by (nonlinear_arith)
                requires
                    qk == h.num_k_heads * h.key_head_dim,
            ;
            assert(h.num_v_heads * h.value_head_dim >= 0) by (nonlinear_arith);
        }
        Some(
            StateTables {
                num_gdn_layers: self.linear_types,
                max_num_seqs,
                d_conv: h.num_k_heads * h.key_head_dim * 2 + h.num_v_heads * h.value_head_dim,
                conv_len: h.conv_kernel_size - 1,
                num_v_heads: h.num_v_heads,
                key_head_dim: h.key_head_dim,
                value_head_dim: h.value_head_dim,
            },
        )
    }
}

/// In a model that settings describe with a type for each layer, every linear attention
/// layer has a state of its own in the tables.
pub proof fn law_states_lie_in_the_tables(
    m: Qwen3_5ForCausalLM,
    vb: &VarBuilderX,
    comm: &Comm,
    config: Config,
    prefix: Option<Seq<char>>,
    dtype: Dtype,
    is_rope_i: bool,
    i: int,
)
    requires
        m.follows(vb, comm, config, prefix, dtype, is_rope_i),
        0 <= i < m.layers@.len() <= config.layer_types@.len(),
        config.layer_types@[i]@ == "linear_attention"@,
    ensures
        m.layers@[i].attn matches Qwen3_5AttnType::LinearAttention(net) && net.gdn_layer_idx
            == state_index(config.layer_types@, i) && net.gdn_layer_idx < m.linear_types,
{
    reveal_strlit("linear_attention");
    reveal_strlit("full_attention");
    assert("linear_attention"@.len() != "full_attention"@.len());
    lemma_linear_before_bounds(config.layer_types@, i, i + 1);
    lemma_linear_before_bounds(config.layer_types@, i + 1, config.layer_types@.len() as int);
    assert(m.layers@[i].follows(
        vb@.below(m.names.layers@ + seq!['.'] + text::decimal_text(i as nat)),
        *comm,
        m.rotary_emb,
        config,
        config.layer_types@[i]@,
        state_index(config.layer_types@, i),
        dtype,
    ));
}

} // verus!
