//! Model rules: what is loaded under which name and shape, and which steps a
//! forward pass takes.

pub mod dry_kernels;
pub mod layers;
pub mod qwen3_5;
