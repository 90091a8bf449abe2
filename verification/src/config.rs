//! The settings of a checkpoint.

use crate::models::layers::deltanet::HybridConfig;
use crate::models::layers::mlp::Activation;
use crate::text;
use vstd::prelude::*;

verus! {

/// The settings that the model and its layers read.
pub struct Config {
    /// The first named architecture; empty where none is named.
    pub architecture: String,
    pub vocab_size: Option<usize>,
    pub hidden_size: usize,
    pub intermediate_size: usize,
    pub num_hidden_layers: usize,
    pub num_attention_heads: usize,
    pub num_key_value_heads: usize,
    pub head_dim: Option<usize>,
    pub hidden_act: Activation,
    /// The bits of a double.
    pub rms_norm_eps: u64,
    /// The bits of a double.
    pub rope_theta: Option<u64>,
    pub tie_word_embeddings: Option<bool>,
    pub qkv_bias: Option<bool>,
    pub attention_bias: Option<bool>,
    pub attn_output_gate: Option<bool>,
    pub output_gate_type: Option<String>,
    pub sliding_window: Option<usize>,
    /// The quantization of the checkpoint, where it has one.
    pub quant_method: Option<String>,
    pub is_mlx_nvfp4: bool,
    /// Whether the quantization is symmetric, where it says so.
    pub sym: Option<bool>,
    /// The weights are quantized while they are loaded.
    pub quantizes_on_load: bool,
    pub is_f16_mode: bool,
    pub higher_precision_required: bool,
    pub mtp_enabled: bool,
    pub mtp_max_verify_tokens: usize,
    pub layer_types: Vec<String>,
    pub hybrid: HybridConfig,
}

impl Config {
    /// The quantization of the checkpoint.
    pub open spec fn method(&self) -> Option<Seq<char>> {
        match self.quant_method {
            Some(m) => Some(m@),
            None => None,
        }
    }

    /// The quantization of the checkpoint.
    pub fn quantization(&self) -> (r: Option<&str>)
        ensures
            text::given(r) == self.method(),
    {
        match &self.quant_method {
            Some(m) => Some(m.as_str()),
            None => None,
        }
    }

    /// Whether the layers can be loaded: quantized loading is open only where the
    /// quantization skips their modules.
    pub open spec fn loads_dense(&self, skip_modules: bool) -> bool {
        match self.method() {
            Some(m) => m.len() == 0 || skip_modules,
            None => true,
        }
    }

    /// The output gate of linear attention, where it is named.
    pub fn output_gate(&self) -> (r: Option<&str>)
        ensures
            match self.output_gate_type {
                Some(t) => r matches Some(s) && s@ == t@,
                None => r is None,
            },
    {
        match &self.output_gate_type {
            Some(t) => Some(t.as_str()),
            None => None,
        }
    }
}

} // verus!
