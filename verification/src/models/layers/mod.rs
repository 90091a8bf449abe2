//! Layer rules and the plain types that they share.

pub mod attention;
pub mod ctx_scope;
pub mod deepstack;
pub mod deltanet;
pub mod distributed;
pub mod linear;
pub mod mask;
pub mod mlp;
pub mod moe;
pub mod others;
pub mod shape;
pub mod tensor;
pub mod var_builder;
pub mod wna16;
