//! Verified core of a text-embedding pipeline.
//!
//! Raw texts are split into contiguous batches, each batch is tokenized and
//! flattened into row-major integer tensors, an inference backend maps those
//! tensors to named output tensors, a precedence list picks one output, and a
//! pooling step reduces it to one vector per input text. The backend, the
//! tokenizer and all floating-point arithmetic are capabilities supplied by
//! the caller; everything structural — batch planning, tensor layout, output
//! selection, pooling index arithmetic and the ordered join — is verified
//! here, generic over the scalar type.

pub mod batching;
pub mod encoding;
pub mod errors;
pub mod model;
pub mod output_key;
pub mod pipeline;
pub mod pooling;
