//! Error taxonomy of the embedding pipeline.

use vstd::prelude::*;

verus! {

/// Every way a `transform` / `embed` call can fail. A single failing batch
/// aborts the whole call; no partial results are ever returned.
#[derive(Debug, Clone, PartialEq, Eq)]
pub enum Error {
    /// The tokenizer could not encode a batch, or returned the wrong number
    /// of sequences for it. Carries the tokenizer's own message.
    Tokenization(String),
    /// An internal shape invariant was violated: sequences of unequal length
    /// in one batch, or an output tensor whose row count or element count
    /// does not match its declared shape.
    Shape,
    /// The inference backend failed; its message is propagated verbatim.
    Inference(String),
    /// No rule of the output-key precedence list matched the named outputs.
    OutputNotFound,
    /// Pooling was handed a tensor whose rank is neither 2 nor 3;
    /// carries the offending rank.
    UnsupportedShape(usize),
    /// Mean pooling met a row whose attention mask is all zero, so the mean
    /// over its valid tokens is undefined; carries the row index within its
    /// batch.
    NumericEdgeCase(usize),
}

} // verus!
