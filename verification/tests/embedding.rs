use fastembed::batching::plan_batches;
use fastembed::encoding::{build_batch_tensors, BatchTensors, EncodedSequence};
use fastembed::errors::Error;
use fastembed::output_key::{default_precedence, resolve_output_index, OutputKey};
use fastembed::pipeline::{embed, transform, transformer_with_precedence, SingleBatchOutput};
use fastembed::pooling::{masked_vectors_of_row, pool_batch, OutputTensor, Pooling};

fn encode_stub(chunk: Vec<String>) -> Result<Vec<EncodedSequence>, String> {
    Ok(chunk
        .iter()
        .map(|text| EncodedSequence {
            ids: vec![text.as_bytes().first().copied().unwrap_or(0) as u32],
            attention_mask: vec![1],
            type_ids: vec![0],
        })
        .collect())
}

fn row_wise_engine(t: BatchTensors) -> Result<Vec<(String, OutputTensor<f32>)>, String> {
    // Rank-3 output [rows, cols, 4]: each token vector is a function of its
    // token id alone, so the result per row does not depend on batching.
    let mut data: Vec<f32> = Vec::new();
    for id in &t.input_ids {
        for j in 1..5 {
            data.push((*id + j) as f32);
        }
    }
    Ok(vec![(
        "last_hidden_state".to_string(),
        OutputTensor {
            shape: vec![t.rows, t.cols, 4],
            data,
        },
    )])
}

fn mean_reduce(sel: Vec<Vec<f32>>) -> Vec<f32> {
    let count = sel.len() as f32;
    let width = sel.first().map(|v| v.len()).unwrap_or(0);
    let mut out = vec![0.0f32; width];
    for v in &sel {
        for (j, x) in v.iter().enumerate() {
            out[j] += x;
        }
    }
    for x in out.iter_mut() {
        *x /= count;
    }
    out
}

fn l2_normalize(v: Vec<f32>) -> Vec<f32> {
    let norm: f32 = v.iter().map(|x| x * x).sum::<f32>().sqrt();
    if norm == 0.0 {
        v
    } else {
        v.iter().map(|x| x / norm).collect()
    }
}

fn close(a: f32, b: f32) -> bool {
    (a - b).abs() < 1e-5
}

#[test]
fn plan_splits_into_ceil_chunks() {
    assert_eq!(plan_batches(5, 2), vec![(0, 2), (2, 2), (4, 1)]);
    assert_eq!(plan_batches(6, 2), vec![(0, 2), (2, 2), (4, 2)]);
    assert_eq!(plan_batches(1, 256), vec![(0, 1)]);
    assert_eq!(plan_batches(0, 3), vec![]);
}

#[test]
fn tensor_builder_flattens_row_major() {
    let encodings = vec![
        EncodedSequence {
            ids: vec![1, 2],
            attention_mask: vec![1, 1],
            type_ids: vec![0, 0],
        },
        EncodedSequence {
            ids: vec![3, 4],
            attention_mask: vec![1, 0],
            type_ids: vec![0, 1],
        },
    ];
    let t = build_batch_tensors(&encodings).unwrap();
    assert_eq!(t.rows, 2);
    assert_eq!(t.cols, 2);
    assert_eq!(t.input_ids, vec![1, 2, 3, 4]);
    assert_eq!(t.attention_mask, vec![1, 1, 1, 0]);
    assert_eq!(t.token_type_ids, vec![0, 0, 0, 1]);
}

#[test]
fn tensor_builder_rejects_inconsistent_lengths() {
    let encodings = vec![
        EncodedSequence {
            ids: vec![1, 2],
            attention_mask: vec![1, 1],
            type_ids: vec![0, 0],
        },
        EncodedSequence {
            ids: vec![3],
            attention_mask: vec![1],
            type_ids: vec![0],
        },
    ];
    assert_eq!(build_batch_tensors(&encodings), Err(Error::Shape));
}

#[test]
fn precedence_two_outputs_selects_last_hidden_state() {
    let names = vec![
        "sentence_embedding".to_string(),
        "last_hidden_state".to_string(),
    ];
    let selected = resolve_output_index(&names, &default_precedence());
    assert_eq!(selected, Ok(1));
}

#[test]
fn precedence_sole_output_matches_any_name() {
    let names = vec!["anything_at_all".to_string()];
    assert_eq!(resolve_output_index(&names, &default_precedence()), Ok(0));
}

#[test]
fn precedence_no_match_is_output_not_found() {
    let names = vec!["foo".to_string(), "bar".to_string()];
    assert_eq!(
        resolve_output_index(&names, &default_precedence()),
        Err(Error::OutputNotFound)
    );
}

#[test]
fn precedence_by_name_picks_first_occurrence() {
    let names = vec!["x".to_string(), "y".to_string(), "x".to_string()];
    let rules = vec![OutputKey::ByName("x".to_string())];
    assert_eq!(resolve_output_index(&names, &rules), Ok(0));
}

#[test]
fn rank2_rows_pass_through_unchanged() {
    let t = OutputTensor {
        shape: vec![2, 3],
        data: vec![1.0f32, 2.0, 3.0, 4.0, 5.0, 6.0],
    };
    let mask = vec![1, 1];
    let out = pool_batch(&t, &mask, 2, 1, Some(Pooling::Mean), mean_reduce).unwrap();
    assert_eq!(out, vec![vec![1.0, 2.0, 3.0], vec![4.0, 5.0, 6.0]]);
}

#[test]
fn rank3_cls_takes_token_zero() {
    let t = OutputTensor {
        shape: vec![2, 2, 2],
        data: vec![1.0f32, 2.0, 9.0, 9.0, 5.0, 6.0, 9.0, 9.0],
    };
    let mask = vec![1, 1, 1, 1];
    let out = pool_batch(&t, &mask, 2, 2, Some(Pooling::Cls), mean_reduce).unwrap();
    assert_eq!(out, vec![vec![1.0, 2.0], vec![5.0, 6.0]]);
}

#[test]
fn masked_mean_divides_by_mask_count_only() {
    // mask [1,1,0] over token vectors a=[1,2], b=[3,4], c=[5,6]:
    // (a+b)/2 = [2,3], not (a+b+c)/3 = [3,4].
    let t = OutputTensor {
        shape: vec![1, 3, 2],
        data: vec![1.0f32, 2.0, 3.0, 4.0, 5.0, 6.0],
    };
    let mask = vec![1, 1, 0];
    let out = pool_batch(&t, &mask, 1, 3, Some(Pooling::Mean), mean_reduce).unwrap();
    assert_eq!(out, vec![vec![2.0, 3.0]]);
}

#[test]
fn masked_selection_keeps_order_and_count() {
    let t = OutputTensor {
        shape: vec![1, 3, 2],
        data: vec![1.0f32, 2.0, 3.0, 4.0, 5.0, 6.0],
    };
    let mask = vec![1, 0, 1];
    let sel = masked_vectors_of_row(&t, &mask, 1, 3, 0);
    assert_eq!(sel, vec![vec![1.0, 2.0], vec![5.0, 6.0]]);
}

#[test]
fn all_zero_mask_row_is_a_numeric_edge_case() {
    let t = OutputTensor {
        shape: vec![1, 3, 2],
        data: vec![1.0f32, 2.0, 3.0, 4.0, 5.0, 6.0],
    };
    let mask = vec![0, 0, 0];
    assert_eq!(
        pool_batch(&t, &mask, 1, 3, Some(Pooling::Mean), mean_reduce),
        Err(Error::NumericEdgeCase(0))
    );
}

#[test]
fn unexpected_rank_is_unsupported_shape() {
    let t = OutputTensor {
        shape: vec![4],
        data: vec![1.0f32, 2.0, 3.0, 4.0],
    };
    let mask = vec![1];
    assert_eq!(
        pool_batch(&t, &mask, 1, 1, None, mean_reduce),
        Err(Error::UnsupportedShape(1))
    );
}

#[test]
fn wrong_element_count_is_shape_error() {
    let t = OutputTensor {
        shape: vec![2, 2],
        data: vec![1.0f32, 2.0, 3.0],
    };
    let mask = vec![1, 1];
    assert_eq!(
        pool_batch(&t, &mask, 2, 1, None, mean_reduce),
        Err(Error::Shape)
    );
}

#[test]
fn wrong_row_count_is_shape_error() {
    let t = OutputTensor {
        shape: vec![3, 2],
        data: vec![0.0f32; 6],
    };
    let mask = vec![1, 1];
    assert_eq!(
        pool_batch(&t, &mask, 2, 1, None, mean_reduce),
        Err(Error::Shape)
    );
}

#[test]
fn transform_builds_one_output_per_batch() {
    let texts = vec!["ab".to_string(), "cd".to_string(), "ef".to_string()];
    let out = transform(&texts, Some(2), encode_stub, row_wise_engine).unwrap();
    assert_eq!(out.batches.len(), 2);
    assert_eq!(out.batches[0].rows, 2);
    assert_eq!(out.batches[1].rows, 1);
    assert_eq!(out.batches[0].outputs[0].0, "last_hidden_state");
}

#[test]
fn transformer_joins_batches_in_order() {
    let make_batch = |values: Vec<f32>| SingleBatchOutput {
        outputs: vec![(
            "last_hidden_state".to_string(),
            OutputTensor {
                shape: vec![values.len(), 1, 1],
                data: values.clone(),
            },
        )],
        attention_mask: vec![1; values.len()],
        rows: values.len(),
        cols: 1,
    };
    let batches = vec![make_batch(vec![1.0, 2.0]), make_batch(vec![3.0])];
    let rows =
        transformer_with_precedence(&batches, &default_precedence(), None, mean_reduce).unwrap();
    assert_eq!(rows, vec![vec![1.0], vec![2.0], vec![3.0]]);
}

#[test]
fn embed_cls_scenario_normalizes_by_root_thirty() {
    let engine = |_t: BatchTensors| -> Result<Vec<(String, OutputTensor<f32>)>, String> {
        Ok(vec![(
            "last_hidden_state".to_string(),
            OutputTensor {
                shape: vec![1, 1, 4],
                data: vec![1.0, 2.0, 3.0, 4.0],
            },
        )])
    };
    let texts = vec!["hello world".to_string()];
    let embs = embed(
        &texts,
        Some(1),
        encode_stub,
        engine,
        None,
        mean_reduce,
        l2_normalize,
    )
    .unwrap();
    assert_eq!(embs.len(), 1);
    let root_thirty = 30.0f32.sqrt();
    for (j, expected) in [1.0f32, 2.0, 3.0, 4.0].iter().enumerate() {
        assert!(close(embs[0][j], expected / root_thirty));
    }
}

#[test]
fn embed_empty_input_dispatches_nothing() {
    let no_tokenize = |_c: Vec<String>| -> Result<Vec<EncodedSequence>, String> {
        panic!("tokenizer must not run on empty input")
    };
    let no_engine = |_t: BatchTensors| -> Result<Vec<(String, OutputTensor<f32>)>, String> {
        panic!("engine must not run on empty input")
    };
    let texts: Vec<String> = vec![];
    let embs = embed(
        &texts,
        None,
        no_tokenize,
        no_engine,
        None,
        mean_reduce,
        l2_normalize,
    )
    .unwrap();
    assert!(embs.is_empty());
}

#[test]
fn embed_failing_batch_aborts_whole_call() {
    let engine = |t: BatchTensors| -> Result<Vec<(String, OutputTensor<f32>)>, String> {
        if t.input_ids[0] == 'b' as i64 {
            Err("boom".to_string())
        } else {
            row_wise_engine(t)
        }
    };
    let texts = vec!["a".to_string(), "b".to_string()];
    let result = embed(
        &texts,
        Some(1),
        encode_stub,
        engine,
        None,
        mean_reduce,
        l2_normalize,
    );
    assert_eq!(result, Err(Error::Inference("boom".to_string())));
}

#[test]
fn embed_tokenizer_error_propagates() {
    let bad_tokenize =
        |_c: Vec<String>| -> Result<Vec<EncodedSequence>, String> { Err("badtok".to_string()) };
    let texts = vec!["a".to_string()];
    let result = embed(
        &texts,
        None,
        bad_tokenize,
        row_wise_engine,
        None,
        mean_reduce,
        l2_normalize,
    );
    assert_eq!(result, Err(Error::Tokenization("badtok".to_string())));
}

#[test]
fn embed_wrong_sequence_count_is_tokenization_error() {
    let short_tokenize =
        |_c: Vec<String>| -> Result<Vec<EncodedSequence>, String> { Ok(vec![]) };
    let texts = vec!["a".to_string()];
    let result = embed(
        &texts,
        None,
        short_tokenize,
        row_wise_engine,
        None,
        mean_reduce,
        l2_normalize,
    );
    assert!(matches!(result, Err(Error::Tokenization(_))));
}

#[test]
fn embed_unnamed_outputs_are_not_found() {
    let engine = |t: BatchTensors| -> Result<Vec<(String, OutputTensor<f32>)>, String> {
        let tensor = OutputTensor {
            shape: vec![t.rows, 2],
            data: vec![1.0; t.rows * 2],
        };
        Ok(vec![
            ("foo".to_string(), tensor.clone()),
            ("bar".to_string(), tensor),
        ])
    };
    let texts = vec!["a".to_string()];
    let result = embed(
        &texts,
        None,
        encode_stub,
        engine,
        None,
        mean_reduce,
        l2_normalize,
    );
    assert_eq!(result, Err(Error::OutputNotFound));
}

#[test]
fn embed_is_idempotent_with_fixed_configuration() {
    let texts = vec!["abc".to_string(), "xyz".to_string()];
    let first = embed(
        &texts,
        Some(2),
        encode_stub,
        row_wise_engine,
        None,
        mean_reduce,
        l2_normalize,
    )
    .unwrap();
    let second = embed(
        &texts,
        Some(2),
        encode_stub,
        row_wise_engine,
        None,
        mean_reduce,
        l2_normalize,
    )
    .unwrap();
    assert_eq!(first, second);
}

#[test]
fn embed_is_batch_size_invariant() {
    let texts = vec!["abc".to_string(), "mno".to_string(), "xyz".to_string()];
    let one_by_one = embed(
        &texts,
        Some(1),
        encode_stub,
        row_wise_engine,
        None,
        mean_reduce,
        l2_normalize,
    )
    .unwrap();
    let all_at_once = embed(
        &texts,
        Some(texts.len()),
        encode_stub,
        row_wise_engine,
        None,
        mean_reduce,
        l2_normalize,
    )
    .unwrap();
    assert_eq!(one_by_one.len(), all_at_once.len());
    for (a, b) in one_by_one.iter().zip(all_at_once.iter()) {
        for (x, y) in a.iter().zip(b.iter()) {
            assert!(close(*x, *y));
        }
    }
}

#[test]
fn embeddings_have_unit_norm() {
    let texts = vec!["abc".to_string(), "defg".to_string()];
    let embs = embed(
        &texts,
        None,
        encode_stub,
        row_wise_engine,
        None,
        mean_reduce,
        l2_normalize,
    )
    .unwrap();
    assert_eq!(embs.len(), 2);
    for v in &embs {
        let norm: f32 = v.iter().map(|x| x * x).sum::<f32>().sqrt();
        assert!(close(norm, 1.0));
    }
}

#[test]
fn zero_vector_stays_unchanged_when_normalized() {
    let engine = |_t: BatchTensors| -> Result<Vec<(String, OutputTensor<f32>)>, String> {
        Ok(vec![(
            "last_hidden_state".to_string(),
            OutputTensor {
                shape: vec![1, 1, 3],
                data: vec![0.0, 0.0, 0.0],
            },
        )])
    };
    let texts = vec!["a".to_string()];
    let embs = embed(
        &texts,
        None,
        encode_stub,
        engine,
        None,
        mean_reduce,
        l2_normalize,
    )
    .unwrap();
    assert_eq!(embs, vec![vec![0.0, 0.0, 0.0]]);
}
