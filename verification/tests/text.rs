//! Names and numbers in text.

use owl::text::{self, copy, decimal, eq_ignore_ascii_case, join_path, same_text};
use owl::utils::is_qwen3_hybrid_arch_name;

#[test]
fn paths_join_with_dots() {
    assert_eq!(join_path("", "model"), "model");
    assert_eq!(join_path("model", "layers"), "model.layers");
    assert_eq!(text::concat("a", "b"), "ab");
    assert_eq!(copy("模型"), "模型");
    assert!(same_text("a", "a") && !same_text("a", "A"));
}

#[test]
fn numbers_in_decimal() {
    for n in [0usize, 1, 9, 10, 42, 100, 65535, usize::MAX] {
        assert_eq!(decimal(n), n.to_string());
    }
}

#[test]
fn cases_of_ascii_letters() {
    assert!(eq_ignore_ascii_case("Q4_K", "q4_k"));
    assert!(!eq_ignore_ascii_case("q4", "q4_k"));
    assert!(!eq_ignore_ascii_case("É", "é"));
}

#[test]
fn hybrid_architectures() {
    assert!(is_qwen3_hybrid_arch_name("Qwen3NextForCausalLM"));
    assert!(is_qwen3_hybrid_arch_name("Qwen4ExpForConditionalGeneration"));
    assert!(!is_qwen3_hybrid_arch_name("Qwen3ForCausalLM"));
    assert!(!is_qwen3_hybrid_arch_name("qwen3nextforcausallm"));
}
