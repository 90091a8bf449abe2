//! Settings of the server.

use vstd::prelude::*;

verus! {

/// How the embeddings of a text become one.
#[derive(Debug, Clone, Copy, PartialEq, Eq, Structural)]
pub enum EmbeddingStrategy {
    Mean,
    Last,
}

impl Default for EmbeddingStrategy {
    fn default() -> (r: Self)
        ensures
            r == EmbeddingStrategy::Mean,
    {
        EmbeddingStrategy::Mean
    }
}

} // verus!
