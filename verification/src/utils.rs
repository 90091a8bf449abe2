//! Architecture names.

use crate::text;
use vstd::prelude::*;

verus! {

/// The architectures with gated attention and hybrid layers.
pub open spec fn is_hybrid_arch(arch: Seq<char>) -> bool {
    ||| arch == "Qwen3_5ForCausalLM"@
    ||| arch == "Qwen3_5MoeForCausalLM"@
    ||| arch == "Qwen3NextForCausalLM"@
    ||| arch == "Qwen3_5ForConditionalGeneration"@
    ||| arch == "Qwen3_5MoeForConditionalGeneration"@
    ||| arch == "Qwen3NextForConditionalGeneration"@
    ||| arch == "Qwen4ExpForConditionalGeneration"@
    ||| arch == "Qwen4ExpForCausalLM"@
}

/// Whether an architecture has gated attention and hybrid layers.
pub fn is_qwen3_hybrid_arch_name(arch: &str) -> (r: bool)
    ensures
        r == is_hybrid_arch(arch@),
{
    text::same_text(arch, "Qwen3_5ForCausalLM") || text::same_text(arch, "Qwen3_5MoeForCausalLM")
        || text::same_text(arch, "Qwen3NextForCausalLM") || text::same_text(
        arch,
        "Qwen3_5ForConditionalGeneration",
    ) || text::same_text(arch, "Qwen3_5MoeForConditionalGeneration") || text::same_text(
        arch,
        "Qwen3NextForConditionalGeneration",
    ) || text::same_text(arch, "Qwen4ExpForConditionalGeneration") || text::same_text(
        arch,
        "Qwen4ExpForCausalLM",
    )
}

} // verus!
