//! "Bring your own model" data: the raw bytes of an ONNX graph and of the
//! tokenizer's files, plus the pooling mode the model was trained for.

use vstd::prelude::*;
use crate::pooling::Pooling;

verus! {

/// The byte contents of the files a tokenizer is built from.
#[derive(Debug, Clone, PartialEq, Eq)]
pub struct TokenizerFiles {
    pub tokenizer_file: Vec<u8>,
    pub config_file: Vec<u8>,
    pub special_tokens_map_file: Vec<u8>,
    pub tokenizer_config_file: Vec<u8>,
}

/// A user-supplied embedding model: the ONNX file's bytes, the tokenizer
/// files' bytes, and the model's pooling mode (absent to infer from the
/// output tensor's rank).
#[derive(Debug, Clone, PartialEq, Eq)]
pub struct UserDefinedEmbeddingModel {
    pub onnx_file: Vec<u8>,
    pub tokenizer_files: TokenizerFiles,
    pub pooling: Option<Pooling>,
}

impl UserDefinedEmbeddingModel {
    /// Bundles the model bytes with tokenizer files, with no pooling mode.
    pub fn new(onnx_file: Vec<u8>, tokenizer_files: TokenizerFiles) -> (m:
        UserDefinedEmbeddingModel)
        ensures
            m.onnx_file == onnx_file,
            m.tokenizer_files == tokenizer_files,
            m.pooling is None,
    {
        UserDefinedEmbeddingModel { onnx_file, tokenizer_files, pooling: None }
    }

    /// The same model with an explicit pooling mode.
    pub fn with_pooling(self, pooling: Pooling) -> (m: UserDefinedEmbeddingModel)
        ensures
            m.onnx_file == self.onnx_file,
            m.tokenizer_files == self.tokenizer_files,
            m.pooling == Some(pooling),
    {
        UserDefinedEmbeddingModel {
            onnx_file: self.onnx_file,
            tokenizer_files: self.tokenizer_files,
            pooling: Some(pooling),
        }
    }
}

} // verus!
