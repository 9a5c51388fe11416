//! The deterministic local embedding baseline's configuration.
//!
//! Tokens are hashed into a fixed number of buckets; the dimension is at
//! least one.

use vstd::prelude::*;

verus! {

/// Deterministic local embedding baseline (hashed term-frequency vectors).
#[derive(Debug, Clone, Copy)]
pub struct TokenHashEmbedding {
    dimension: usize,
}

impl TokenHashEmbedding {
    /// Default dimension (256 buckets).
    pub const DEFAULT_DIMENSION: usize = 256;

    /// The configured dimension.
    pub closed spec fn dim(self) -> nat {
        self.dimension as nat
    }

    /// The baseline provider with the default dimension.
    pub fn new() -> (e: TokenHashEmbedding)
        ensures
            e.dim() == 256,
    {
        Self::with_dimension(Self::DEFAULT_DIMENSION)
    }

    /// The baseline provider with a custom dimension (at least one).
    pub fn with_dimension(dimension: usize) -> (e: TokenHashEmbedding)
        ensures
            e.dim() == if dimension >= 1 { dimension as nat } else { 1 },
    {
        TokenHashEmbedding { dimension: if dimension >= 1 { dimension } else { 1 } }
    }

    /// The configured dimension.
    pub fn dimension(&self) -> (d: usize)
        ensures
            d as nat == self.dim(),
            d >= 1 || self.dim() == d,
    {
        self.dimension
    }

    /// Provider name, surfaced in explanations.
    pub fn name(&self) -> (n: &'static str)
        ensures
            n@ == "token-hash-v1"@,
    {
        "token-hash-v1"
    }
}

} // verus!
