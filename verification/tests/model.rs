use fastembed::model::{TokenizerFiles, UserDefinedEmbeddingModel};
use fastembed::pooling::Pooling;

#[test]
fn user_defined_model_starts_without_pooling() {
    let files = TokenizerFiles {
        tokenizer_file: vec![1, 2],
        config_file: vec![3],
        special_tokens_map_file: vec![],
        tokenizer_config_file: vec![4, 5],
    };
    let model = UserDefinedEmbeddingModel::new(vec![9, 9, 9], files.clone());
    assert_eq!(model.onnx_file, vec![9, 9, 9]);
    assert_eq!(model.tokenizer_files, files);
    assert_eq!(model.pooling, None);
}

#[test]
fn user_defined_model_takes_explicit_pooling() {
    let files = TokenizerFiles {
        tokenizer_file: vec![],
        config_file: vec![],
        special_tokens_map_file: vec![],
        tokenizer_config_file: vec![],
    };
    let model = UserDefinedEmbeddingModel::new(vec![], files).with_pooling(Pooling::Mean);
    assert_eq!(model.pooling, Some(Pooling::Mean));
}
