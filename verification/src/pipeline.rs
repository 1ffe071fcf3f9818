//! The pipeline driver: one batch's raw outputs, output selection plus
//! pooling per batch, and the end-to-end `transform` / `embed` calls that
//! split texts into batches, hand each batch to the tokenizer and backend
//! capabilities, and join the per-batch results in input order.

use vstd::prelude::*;
use vstd::string::StringExecFns;
use crate::batching::{plan_batches, spec_chunk_count, spec_chunk_len};
use crate::encoding::{build_batch_tensors, consistent_lengths, tensors_match, BatchTensors, EncodedSequence};
use crate::errors::Error;
use crate::output_key::{default_precedence, resolved, OutputKey};
use crate::pooling::{copy_range, pool_batch, pool_batch_post, Pooling, OutputTensor};

verus! {

/// One batch's named output tensors together with the attention-mask tensor
/// that was sent to the backend for it, and the batch geometry: `rows` texts
/// of `cols` tokens each. Owned by its batch's worker until pooling
/// consumes it.
pub struct SingleBatchOutput<T> {
    pub outputs: Vec<(String, OutputTensor<T>)>,
    pub attention_mask: Vec<i64>,
    pub rows: usize,
    pub cols: usize,
}

/// The names of a batch's outputs, in order.
pub open spec fn output_names<T>(outputs: Seq<(String, OutputTensor<T>)>) -> Seq<Seq<char>> {
    outputs.map_values(|p: (String, OutputTensor<T>)| p.0@)
}

impl<T> SingleBatchOutput<T> {
    /// The mask tensor holds exactly one entry per row and token.
    pub open spec fn wf(self) -> bool {
        self.attention_mask@.len() == self.rows * self.cols
    }

    /// Which output index the precedence list selects for this batch.
    pub open spec fn spec_selected(self, precedence: Seq<OutputKey>) -> Option<int> {
        resolved(output_names(self.outputs@), precedence)
    }
}

impl<T: Copy> SingleBatchOutput<T> {
    /// Selects this batch's output tensor by precedence and pools it: the
    /// first matching rule names the tensor, which is then reduced to one
    /// vector per row under this batch's attention mask. Fails with
    /// `OutputNotFound` exactly when no rule matches; otherwise behaves as
    /// the pooling engine does on the selected tensor.
    pub fn select_and_pool_output<F: Fn(Vec<Vec<T>>) -> Vec<T> + Copy>(
        &self,
        precedence: &Vec<OutputKey>,
        pooling: Option<Pooling>,
        mean_reduce: F,
    ) -> (result: Result<Vec<Vec<T>>, Error>)
        requires
            self.wf(),
            forall|args: Vec<Vec<T>>| call_requires(mean_reduce, (args,)),
        ensures
            self.spec_selected(precedence@) is None <==> result == Err::<Vec<Vec<T>>, Error>(
                Error::OutputNotFound,
            ),
            self.spec_selected(precedence@) matches Some(i) ==> pool_batch_post(
                self.outputs@[i].1,
                self.attention_mask@,
                self.rows as int,
                self.cols as int,
                pooling,
                mean_reduce,
                result,
            ),
            result matches Ok(out) ==> out@.len() == self.rows,
    {
        let mut names: Vec<String> = Vec::new();
        let mut i: usize = 0;
        while i < self.outputs.len()
            invariant
                0 <= i <= self.outputs@.len(),
                names@.len() == i,
                forall|j: int| 0 <= j < i ==> (#[trigger] names@[j])@ == self.outputs@[j].0@,
            decreases self.outputs@.len() - i,
        {
            names.push(self.outputs[i].0.clone());
            i = i + 1;
        }
        proof {
            assert(names@.map_values(|s: String| s@) =~= output_names(self.outputs@));
        }
        let selected = match crate::output_key::resolve_output_index(&names, precedence) {
            Ok(ix) => ix,
            Err(_) => {
                return Err(Error::OutputNotFound);
            },
        };
        let result = pool_batch(
            &self.outputs[selected].1,
            &self.attention_mask,
            self.rows,
            self.cols,
            pooling,
            mean_reduce,
        );
        proof {
            reveal(pool_batch_post);
        }
        result
    }
}

/// Total rows of the first `k` batches: where batch `k`'s segment begins in
/// the joined output.
pub open spec fn row_offset<T>(batches: Seq<SingleBatchOutput<T>>, k: int) -> int
    decreases k,
{
    if k <= 0 {
        0
    } else {
        row_offset(batches, k - 1) + batches[k - 1].rows
    }
}

/// Total rows over all batches.
pub open spec fn total_rows<T>(batches: Seq<SingleBatchOutput<T>>) -> int {
    row_offset(batches, batches.len() as int)
}

/// Selection and pooling cannot fail on this batch: some precedence rule
/// matches, and the selected tensor is well-shaped for its pooling path
/// (with every row mean-poolable when the mode is mean).
#[verifier::opaque]
pub open spec fn batch_poolable<T>(
    batch: SingleBatchOutput<T>,
    precedence: Seq<OutputKey>,
    pooling: Option<Pooling>,
) -> bool {
    batch.spec_selected(precedence) matches Some(i) && {
        let t = batch.outputs@[i].1;
        ||| crate::pooling::rank2_wf(t, batch.rows as int)
        ||| (crate::pooling::rank3_wf(t, batch.rows as int, batch.cols as int) && !(
        pooling matches Some(Pooling::Mean)) && batch.cols >= 1)
        ||| (crate::pooling::rank3_wf(t, batch.rows as int, batch.cols as int) && (
        pooling matches Some(Pooling::Mean)) && forall|r: int|
            0 <= r < batch.rows ==> crate::pooling::spec_masked_vectors(
                t,
                batch.attention_mask@,
                r,
                batch.cols as int,
            ).len() > 0)
    }
}


/// `out` is a possible result of the normalize capability on a vector
/// holding exactly the scalars `row`.
#[verifier::opaque]
pub open spec fn normalized_row<T, FNorm: Fn(Vec<T>) -> Vec<T>>(
    normalize: FNorm,
    row: Seq<T>,
    out: Vec<T>,
) -> bool {
    exists|src: Vec<T>| src@ == row && call_ensures(normalize, (src,), out)
}

/// The error with which selection and pooling of this batch fail: no
/// matching precedence rule yields `OutputNotFound`; otherwise it is the
/// pooling engine's error for the selected tensor, exactly as
/// `pool_batch_post` pins it (unsupported rank with the rank, shape
/// mismatch, or the first all-zero-mask row).
pub open spec fn batch_pool_error<T, F: Fn(Vec<Vec<T>>) -> Vec<T>>(
    batch: SingleBatchOutput<T>,
    precedence: Seq<OutputKey>,
    pooling: Option<Pooling>,
    mean_reduce: F,
    e: Error,
) -> bool {
    &&& batch.spec_selected(precedence) is None ==> e == Error::OutputNotFound
    &&& batch.spec_selected(precedence) matches Some(i) ==> pool_batch_post(
        batch.outputs@[i].1,
        batch.attention_mask@,
        batch.rows as int,
        batch.cols as int,
        pooling,
        mean_reduce,
        Err(e),
    )
}

/// The ordered join failed at the first non-poolable batch, with that
/// batch's selection/pooling error.
#[verifier::opaque]
pub open spec fn join_failed<T, F: Fn(Vec<Vec<T>>) -> Vec<T>>(
    batches: Seq<SingleBatchOutput<T>>,
    precedence: Seq<OutputKey>,
    pooling: Option<Pooling>,
    mean_reduce: F,
    e: Error,
) -> bool {
    exists|k: int|
        0 <= k < batches.len() && !batch_poolable(#[trigger] batches[k], precedence, pooling) && (
        forall|j: int| 0 <= j < k ==> batch_poolable(#[trigger] batches[j], precedence, pooling))
            && batch_pool_error(batches[k], precedence, pooling, mean_reduce, e)
}

/// The segment `embs[off .. off + batch.rows]` holds exactly this batch's
/// pooled rows, for whichever pooling path its selected tensor falls under.
#[verifier::opaque]
pub open spec fn segment_pooled<T, F: Fn(Vec<Vec<T>>) -> Vec<T>>(
    batch: SingleBatchOutput<T>,
    precedence: Seq<OutputKey>,
    pooling: Option<Pooling>,
    mean_reduce: F,
    embs: Seq<Vec<T>>,
    off: int,
) -> bool {
    batch.spec_selected(precedence) matches Some(i) ==> {
        let t = batch.outputs@[i].1;
        &&& crate::pooling::rank2_wf(t, batch.rows as int) ==> forall|r: int|
            0 <= r < batch.rows ==> (#[trigger] embs[off + r])@ == crate::pooling::spec_rank2_row(
                t,
                r,
            )
        &&& crate::pooling::rank3_wf(t, batch.rows as int, batch.cols as int) && !(
        pooling matches Some(Pooling::Mean)) && batch.cols >= 1 ==> forall|r: int|
            0 <= r < batch.rows ==> (#[trigger] embs[off + r])@
                == crate::pooling::spec_token_vector(t, r, 0)
        &&& crate::pooling::rank3_wf(t, batch.rows as int, batch.cols as int) && (
        pooling matches Some(Pooling::Mean)) && (forall|r: int|
            0 <= r < batch.rows ==> crate::pooling::spec_masked_vectors(
                t,
                batch.attention_mask@,
                r,
                batch.cols as int,
            ).len() > 0) ==> forall|r: int|
            0 <= r < batch.rows ==> crate::pooling::mean_pooled_row(
                mean_reduce,
                t,
                batch.attention_mask@,
                r,
                batch.cols as int,
                #[trigger] embs[off + r],
            )
    }
}

/// `row_offset` grows with the prefix length.
proof fn lemma_row_offset_mono<T>(batches: Seq<SingleBatchOutput<T>>, a: int, b: int)
    requires
        0 <= a <= b,
    ensures
        row_offset(batches, a) <= row_offset(batches, b),
    decreases b,
{
    if a < b {
        lemma_row_offset_mono(batches, a, b - 1);
    }
}



/// A batch whose selection or pooling failed is not poolable: either no
/// precedence rule matched, or the selected tensor fell outside every
/// successful pooling path.
proof fn lemma_err_not_poolable<T, F: Fn(Vec<Vec<T>>) -> Vec<T>>(
    batch: SingleBatchOutput<T>,
    precedence: Seq<OutputKey>,
    pooling: Option<Pooling>,
    mean_reduce: F,
    e: Error,
)
    requires
        batch.spec_selected(precedence) matches Some(i) ==> pool_batch_post(
            batch.outputs@[i].1,
            batch.attention_mask@,
            batch.rows as int,
            batch.cols as int,
            pooling,
            mean_reduce,
            Err(e),
        ),
    ensures
        !batch_poolable(batch, precedence, pooling),
{
    reveal(pool_batch_post);
    reveal(batch_poolable);
}

/// A batch whose pooling returned rows is poolable, and returned exactly
/// one row per input.
proof fn lemma_ok_poolable<T, F: Fn(Vec<Vec<T>>) -> Vec<T>>(
    batch: SingleBatchOutput<T>,
    precedence: Seq<OutputKey>,
    pooling: Option<Pooling>,
    mean_reduce: F,
    pooled: Vec<Vec<T>>,
)
    requires
        !(batch.spec_selected(precedence) is None),
        batch.spec_selected(precedence) matches Some(i) ==> pool_batch_post(
            batch.outputs@[i].1,
            batch.attention_mask@,
            batch.rows as int,
            batch.cols as int,
            pooling,
            mean_reduce,
            Ok(pooled),
        ),
    ensures
        batch_poolable(batch, precedence, pooling),
        pooled@.len() == batch.rows,
{
    reveal(pool_batch_post);
    reveal(batch_poolable);
}

/// Appending rows beyond the first `k` segments leaves those segments'
/// contents, and so their pooled-row property, untouched.
proof fn lemma_preserve_segments<T, F: Fn(Vec<Vec<T>>) -> Vec<T>>(
    batches: Seq<SingleBatchOutput<T>>,
    precedence: Seq<OutputKey>,
    pooling: Option<Pooling>,
    mean_reduce: F,
    old_embs: Seq<Vec<T>>,
    new_embs: Seq<Vec<T>>,
    k: int,
)
    requires
        0 <= k <= batches.len(),
        old_embs.len() == row_offset(batches, k),
        new_embs.len() >= old_embs.len(),
        forall|idx: int| 0 <= idx < old_embs.len() ==> new_embs[idx] == old_embs[idx],
        forall|j: int|
            0 <= j < k ==> segment_pooled(
                #[trigger] batches[j],
                precedence,
                pooling,
                mean_reduce,
                old_embs,
                row_offset(batches, j),
            ),
    ensures
        forall|j: int|
            0 <= j < k ==> segment_pooled(
                #[trigger] batches[j],
                precedence,
                pooling,
                mean_reduce,
                new_embs,
                row_offset(batches, j),
            ),
{
    reveal(segment_pooled);
    assert forall|j: int|
        0 <= j < k implies segment_pooled(
        #[trigger] batches[j],
        precedence,
        pooling,
        mean_reduce,
        new_embs,
        row_offset(batches, j),
    ) by {
        lemma_row_offset_mono(batches, 0, j);
        lemma_row_offset_mono(batches, j + 1, k);
        assert(row_offset(batches, j + 1) == row_offset(batches, j) + batches[j].rows);
        assert forall|r: int|
            0 <= r < batches[j].rows implies #[trigger] new_embs[row_offset(batches, j) + r]
            == old_embs[row_offset(batches, j) + r] by {}
    }
}

/// The rows appended for one batch form exactly that batch's pooled
/// segment, starting right where the previous segments end.
proof fn lemma_new_segment<T, F: Fn(Vec<Vec<T>>) -> Vec<T>>(
    batch: SingleBatchOutput<T>,
    precedence: Seq<OutputKey>,
    pooling: Option<Pooling>,
    mean_reduce: F,
    old_embs: Seq<Vec<T>>,
    pooled: Vec<Vec<T>>,
    new_embs: Seq<Vec<T>>,
)
    requires
        batch.spec_selected(precedence) matches Some(i) ==> pool_batch_post(
            batch.outputs@[i].1,
            batch.attention_mask@,
            batch.rows as int,
            batch.cols as int,
            pooling,
            mean_reduce,
            Ok(pooled),
        ),
        new_embs == old_embs + pooled@,
        pooled@.len() == batch.rows,
    ensures
        segment_pooled(batch, precedence, pooling, mean_reduce, new_embs, old_embs.len() as int),
{
    reveal(pool_batch_post);
    reveal(segment_pooled);
    let off = old_embs.len() as int;
    assert forall|r: int| 0 <= r < batch.rows implies #[trigger] new_embs[off + r]
        == pooled@[r] by {}
}

/// Joins every batch's pooled rows in batch order: batch `k`'s rows occupy
/// the segment starting at `row_offset(batches, k)`, so the concatenation
/// reproduces the original input order. Succeeds if and only if every batch
/// can be selected and pooled; one failing batch aborts the whole call with
/// its error and no rows at all.
#[verifier::rlimit(100)]
pub fn transformer_with_precedence<T: Copy, F: Fn(Vec<Vec<T>>) -> Vec<T> + Copy>(
    batches: &Vec<SingleBatchOutput<T>>,
    precedence: &Vec<OutputKey>,
    pooling: Option<Pooling>,
    mean_reduce: F,
) -> (result: Result<Vec<Vec<T>>, Error>)
    requires
        forall|k: int| 0 <= k < batches@.len() ==> (#[trigger] batches@[k]).wf(),
        forall|args: Vec<Vec<T>>| call_requires(mean_reduce, (args,)),
    ensures
        (forall|k: int|
            0 <= k < batches@.len() ==> batch_poolable(
                #[trigger] batches@[k],
                precedence@,
                pooling,
            )) <==> result is Ok,
        result matches Ok(embs) ==> embs@.len() == total_rows(batches@) && forall|k: int|
            0 <= k < batches@.len() ==> segment_pooled(
                #[trigger] batches@[k],
                precedence@,
                pooling,
                mean_reduce,
                embs@,
                row_offset(batches@, k),
            ),
        result matches Err(e) ==> join_failed(batches@, precedence@, pooling, mean_reduce, e),
{
    let mut embs: Vec<Vec<T>> = Vec::new();
    let mut k: usize = 0;
    while k < batches.len()
        invariant
            forall|j: int| 0 <= j < batches@.len() ==> (#[trigger] batches@[j]).wf(),
            forall|args: Vec<Vec<T>>| call_requires(mean_reduce, (args,)),
            0 <= k <= batches@.len(),
            embs@.len() == row_offset(batches@, k as int),
            forall|j: int|
                0 <= j < k ==> batch_poolable(#[trigger] batches@[j], precedence@, pooling),
            forall|j: int|
                0 <= j < k ==> segment_pooled(
                    #[trigger] batches@[j],
                    precedence@,
                    pooling,
                    mean_reduce,
                    embs@,
                    row_offset(batches@, j),
                ),
        decreases batches@.len() - k,
    {
        let batch = &batches[k];
        let mut pooled = match batch.select_and_pool_output(precedence, pooling, mean_reduce) {
            Ok(p) => p,
            Err(e) => {
                proof {
                    lemma_err_not_poolable(
                        batches@[k as int],
                        precedence@,
                        pooling,
                        mean_reduce,
                        e,
                    );
                    assert(batch_pool_error(
                        batches@[k as int],
                        precedence@,
                        pooling,
                        mean_reduce,
                        e,
                    ));
                    let ghost ki = k as int;
                    assert(join_failed(batches@, precedence@, pooling, mean_reduce, e)) by {
                        reveal(join_failed);
                        assert(0 <= ki < batches@.len() && !batch_poolable(
                            batches@[ki],
                            precedence@,
                            pooling,
                        ) && (forall|j: int|
                            0 <= j < ki ==> batch_poolable(
                                #[trigger] batches@[j],
                                precedence@,
                                pooling,
                            )) && batch_pool_error(
                            batches@[ki],
                            precedence@,
                            pooling,
                            mean_reduce,
                            e,
                        ));
                    }
                }
                return Err(e);
            },
        };
        let ghost old_embs = embs@;
        let ghost pooled_vec = pooled;
        embs.append(&mut pooled);
        proof {
            lemma_ok_poolable(batches@[k as int], precedence@, pooling, mean_reduce, pooled_vec);
            assert(embs@ == old_embs + pooled_vec@);
            lemma_preserve_segments(
                batches@,
                precedence@,
                pooling,
                mean_reduce,
                old_embs,
                embs@,
                k as int,
            );
            lemma_new_segment(
                batches@[k as int],
                precedence@,
                pooling,
                mean_reduce,
                old_embs,
                pooled_vec,
                embs@,
            );
            assert(row_offset(batches@, k as int + 1) == row_offset(batches@, k as int)
                + batches@[k as int].rows);
        }
        k = k + 1;
    }
    Ok(embs)
}

/// A `transform` call's result: one `SingleBatchOutput` per batch, in batch
/// order, ready to be pooled and joined.
pub struct EmbeddingOutput<T> {
    pub batches: Vec<SingleBatchOutput<T>>,
}

impl<T> EmbeddingOutput<T> {
    /// Wraps the per-batch outputs.
    pub fn new(batches: Vec<SingleBatchOutput<T>>) -> (out: EmbeddingOutput<T>)
        ensures
            out.batches == batches,
    {
        EmbeddingOutput { batches }
    }
}


/// The `k`-th planned chunk of `texts` under chunk bound `b`.
pub open spec fn spec_chunk_texts(texts: Seq<String>, b: int, k: int) -> Seq<String> {
    texts.subrange(b * k, b * k + spec_chunk_len(texts.len() as int, b, k))
}

/// The tokenizer capability, handed exactly the `k`-th planned chunk of
/// `texts`, could return `r`.
pub open spec fn chunk_tokenized<FTok: Fn(Vec<String>) -> Result<Vec<EncodedSequence>, String>>(
    texts: Seq<String>,
    b: int,
    k: int,
    tokenize: FTok,
    r: Result<Vec<EncodedSequence>, String>,
) -> bool {
    exists|chunk: Vec<String>|
        chunk@ == spec_chunk_texts(texts, b, k) && call_ensures(tokenize, (chunk,), r)
}

/// Batch `k` is an honest record of one pipeline step: the tokenizer,
/// handed exactly the `k`-th planned chunk, returned these encodings — one
/// per text, all of one length; the input tensors are exactly their
/// row-major flattening; the backend, handed exactly those tensors,
/// returned these named outputs; and the batch stores those outputs
/// verbatim, together with the attention-mask tensor that was sent.
#[verifier::opaque]
pub open spec fn batch_transformed<
    T,
    FTok: Fn(Vec<String>) -> Result<Vec<EncodedSequence>, String>,
    FRun: Fn(BatchTensors) -> Result<Vec<(String, OutputTensor<T>)>, String>,
>(
    texts: Seq<String>,
    b: int,
    k: int,
    tokenize: FTok,
    run: FRun,
    batch: SingleBatchOutput<T>,
) -> bool {
    exists|encodings: Vec<EncodedSequence>, tensors: BatchTensors, outputs: Vec<
        (String, OutputTensor<T>),
    >|
        {
            &&& chunk_tokenized(
                texts,
                b,
                k,
                tokenize,
                Result::<Vec<EncodedSequence>, String>::Ok(encodings),
            )
            &&& encodings@.len() == spec_chunk_len(texts.len() as int, b, k)
            &&& consistent_lengths(encodings@)
            &&& tensors.wf()
            &&& tensors_match(tensors, encodings@)
            &&& tensors.cols as int == if encodings@.len() == 0 {
                0int
            } else {
                encodings@[0].ids@.len() as int
            }
            &&& call_ensures(run, (tensors,), Result::<Vec<(String, OutputTensor<T>)>, String>::Ok(outputs))
            &&& batch.outputs == outputs
            &&& batch.attention_mask@ == tensors.attention_mask@
            &&& batch.rows == tensors.rows
            &&& batch.cols == tensors.cols
        }
}

/// Every batch is an honest record of the planned pipeline run on `texts`
/// (see `batch_transformed`), with the planned count and row geometry.
pub open spec fn batches_transformed<
    T,
    FTok: Fn(Vec<String>) -> Result<Vec<EncodedSequence>, String>,
    FRun: Fn(BatchTensors) -> Result<Vec<(String, OutputTensor<T>)>, String>,
>(texts: Seq<String>, b: int, tokenize: FTok, run: FRun, batches: Seq<SingleBatchOutput<T>>) -> bool {
    &&& batches.len() == spec_chunk_count(texts.len() as int, b)
    &&& forall|k: int|
        0 <= k < batches.len() ==> (#[trigger] batches[k]).wf() && batches[k].rows as int
            == spec_chunk_len(texts.len() as int, b, k) && batch_transformed(
            texts,
            b,
            k,
            tokenize,
            run,
            batches[k],
        )
}

/// The tokenizer capability cannot fail: every result it admits is `Ok`,
/// with one sequence per text, all of one length.
pub open spec fn tokenizer_total<FTok: Fn(Vec<String>) -> Result<Vec<EncodedSequence>, String>>(
    tokenize: FTok,
) -> bool {
    forall|chunk: Vec<String>, r: Result<Vec<EncodedSequence>, String>|
        #[trigger] call_ensures(tokenize, (chunk,), r) ==> (r matches Ok(encodings)
            && encodings@.len() == chunk@.len() && consistent_lengths(encodings@))
}

/// The backend capability cannot fail: every result it admits is `Ok`.
pub open spec fn backend_total<
    T,
    FRun: Fn(BatchTensors) -> Result<Vec<(String, OutputTensor<T>)>, String>,
>(run: FRun) -> bool {
    forall|t: BatchTensors, r: Result<Vec<(String, OutputTensor<T>)>, String>|
        #[trigger] call_ensures(run, (t,), r) ==> r is Ok
}

/// Why a `transform` call failed, with the capability result that made it
/// fail, on a planned chunk: the tokenizer returned this very error
/// message; or it returned the wrong number of sequences (the fixed
/// message); or its sequences had inconsistent lengths; or the backend,
/// handed exactly the tensors built from its encodings, returned this
/// very error message.
#[verifier::opaque]
pub open spec fn transform_failed<
    T,
    FTok: Fn(Vec<String>) -> Result<Vec<EncodedSequence>, String>,
    FRun: Fn(BatchTensors) -> Result<Vec<(String, OutputTensor<T>)>, String>,
>(texts: Seq<String>, b: int, tokenize: FTok, run: FRun, e: Error) -> bool {
    exists|k: int|
        #![trigger spec_chunk_texts(texts, b, k)]
        0 <= k < spec_chunk_count(texts.len() as int, b) && match e {
            Error::Tokenization(m) => {
                ||| chunk_tokenized(
                    texts,
                    b,
                    k,
                    tokenize,
                    Result::<Vec<EncodedSequence>, String>::Err(m),
                )
                ||| (m@ == "tokenizer returned a different number of sequences"@ && exists|
                    encodings: Vec<EncodedSequence>,
                |
                    chunk_tokenized(
                        texts,
                        b,
                        k,
                        tokenize,
                        Result::<Vec<EncodedSequence>, String>::Ok(encodings),
                    ) && encodings@.len() != spec_chunk_len(texts.len() as int, b, k))
            },
            Error::Shape => exists|encodings: Vec<EncodedSequence>|
                chunk_tokenized(
                    texts,
                    b,
                    k,
                    tokenize,
                    Result::<Vec<EncodedSequence>, String>::Ok(encodings),
                ) && encodings@.len() == spec_chunk_len(texts.len() as int, b, k)
                    && !consistent_lengths(encodings@),
            Error::Inference(m) => exists|encodings: Vec<EncodedSequence>, tensors: BatchTensors|
                chunk_tokenized(
                    texts,
                    b,
                    k,
                    tokenize,
                    Result::<Vec<EncodedSequence>, String>::Ok(encodings),
                ) && encodings@.len() == spec_chunk_len(texts.len() as int, b, k)
                    && consistent_lengths(encodings@) && tensors.wf() && tensors_match(
                    tensors,
                    encodings@,
                ) && call_ensures(
                    run,
                    (tensors,),
                    Result::<Vec<(String, OutputTensor<T>)>, String>::Err(m),
                ),
            _ => false,
        }
}

/// Number of texts per batch when the caller gives none.
pub open spec fn spec_effective_batch_size(batch_size: Option<usize>) -> int {
    match batch_size {
        Some(b) => b as int,
        None => 256,
    }
}

/// Tokenizes and runs every batch of `texts` through the capabilities:
/// plans `ceil(n / batch_size)` contiguous batches (256 texts per batch by
/// default), tokenizes each batch, flattens it into the three input
/// tensors, invokes the backend on them, and keeps each batch's named
/// outputs with its attention mask, in batch order. The first failing
/// batch aborts the call: a tokenizer error (or a wrong sequence count)
/// as `Tokenization`, inconsistent sequence lengths as `Shape`, a backend
/// error as `Inference`, propagated verbatim.
pub fn transform<T: Copy, FTok, FRun>(
    texts: &Vec<String>,
    batch_size: Option<usize>,
    tokenize: FTok,
    run: FRun,
) -> (result: Result<EmbeddingOutput<T>, Error>) where
    FTok: Fn(Vec<String>) -> Result<Vec<EncodedSequence>, String> + Copy,
    FRun: Fn(BatchTensors) -> Result<Vec<(String, OutputTensor<T>)>, String> + Copy,

    requires
        batch_size matches Some(b) ==> b >= 1,
        forall|chunk: Vec<String>| call_requires(tokenize, (chunk,)),
        forall|t: BatchTensors| call_requires(run, (t,)),
    ensures
        result matches Ok(out) ==> batches_transformed(
            texts@,
            spec_effective_batch_size(batch_size),
            tokenize,
            run,
            out.batches@,
        ),
        texts@.len() == 0 ==> (result matches Ok(out) && out.batches@.len() == 0),
        result matches Err(e) ==> (e matches Error::Tokenization(_) || e == Error::Shape
            || e matches Error::Inference(_)),
        result matches Err(e) ==> transform_failed(
            texts@,
            spec_effective_batch_size(batch_size),
            tokenize,
            run,
            e,
        ),
        tokenizer_total(tokenize) && backend_total(run) ==> result is Ok,
{
    let n = texts.len();
    let b = match batch_size {
        Some(x) => x,
        None => 256,
    };
    let plan = plan_batches(n, b);
    let mut batches: Vec<SingleBatchOutput<T>> = Vec::new();
    let mut k: usize = 0;
    while k < plan.len()
        invariant
            n == texts@.len(),
            b as int == spec_effective_batch_size(batch_size),
            b >= 1,
            plan@.len() == spec_chunk_count(n as int, b as int),
            crate::batching::plan_tiles(plan@, n as int, b as int),
            forall|j: int|
                0 <= j < plan@.len() ==> (#[trigger] plan@[j]).0 as int == b as int * j
                    && plan@[j].1 as int == spec_chunk_len(n as int, b as int, j),
            forall|chunk: Vec<String>| call_requires(tokenize, (chunk,)),
            forall|t: BatchTensors| call_requires(run, (t,)),
            0 <= k <= plan@.len(),
            batches@.len() == k,
            forall|j: int|
                0 <= j < k ==> (#[trigger] batches@[j]).wf() && batches@[j].rows as int
                    == spec_chunk_len(n as int, b as int, j),
            forall|j: int|
                0 <= j < k ==> batch_transformed(
                    texts@,
                    b as int,
                    j,
                    tokenize,
                    run,
                    #[trigger] batches@[j],
                ),
        decreases plan@.len() - k,
    {
        let start = plan[k].0;
        let len = plan[k].1;
        proof {
            assert(start + len <= n);
        }
        let mut chunk: Vec<String> = Vec::new();
        let mut i: usize = 0;
        while i < len
            invariant
                start + len <= n,
                n == texts@.len(),
                0 <= i <= len,
                chunk@ == texts@.subrange(start as int, start as int + i),
            decreases len - i,
        {
            chunk.push(texts[start + i].clone());
            proof {
                assert(chunk@ =~= texts@.subrange(start as int, start as int + i + 1));
            }
            i = i + 1;
        }
        let ghost ki = k as int;
        let ghost chunk_snap = chunk;
        proof {
            assert(chunk_snap@ =~= spec_chunk_texts(texts@, b as int, ki));
        }
        let encodings = match tokenize(chunk) {
            Ok(encodings) => encodings,
            Err(msg) => {
                proof {
                    assert(transform_failed(
                        texts@,
                        b as int,
                        tokenize,
                        run,
                        Error::Tokenization(msg),
                    )) by {
                        reveal(transform_failed);
                        assert(chunk_tokenized(
                            texts@,
                            b as int,
                            ki,
                            tokenize,
                            Result::<Vec<EncodedSequence>, String>::Err(msg),
                        )) by {
                            assert(chunk_snap@ == spec_chunk_texts(texts@, b as int, ki)
                                && call_ensures(
                                tokenize,
                                (chunk_snap,),
                                Result::<Vec<EncodedSequence>, String>::Err(msg),
                            ));
                        }
                    }
                }
                return Err(Error::Tokenization(msg));
            },
        };
        proof {
            assert(chunk_tokenized(
                texts@,
                b as int,
                ki,
                tokenize,
                Result::<Vec<EncodedSequence>, String>::Ok(encodings),
            )) by {
                assert(chunk_snap@ == spec_chunk_texts(texts@, b as int, ki) && call_ensures(
                    tokenize,
                    (chunk_snap,),
                    Result::<Vec<EncodedSequence>, String>::Ok(encodings),
                ));
            }
        }
        if encodings.len() != len {
            let msg = String::from_str("tokenizer returned a different number of sequences");
            proof {
                assert(transform_failed(
                    texts@,
                    b as int,
                    tokenize,
                    run,
                    Error::Tokenization(msg),
                )) by {
                    reveal(transform_failed);
                }
            }
            return Err(Error::Tokenization(msg));
        }
        let tensors = match build_batch_tensors(&encodings) {
            Ok(t) => t,
            Err(_) => {
                proof {
                    assert(transform_failed(texts@, b as int, tokenize, run, Error::Shape)) by {
                        reveal(transform_failed);
                    }
                }
                return Err(Error::Shape);
            },
        };
        let cols = tensors.cols;
        let mask_len = tensors.attention_mask.len();
        let mask = copy_range(&tensors.attention_mask, 0, mask_len);
        proof {
            assert(mask@ =~= tensors.attention_mask@);
        }
        let ghost sent = tensors;
        let outputs = match run(tensors) {
            Ok(o) => o,
            Err(msg) => {
                proof {
                    assert(transform_failed(
                        texts@,
                        b as int,
                        tokenize,
                        run,
                        Error::Inference(msg),
                    )) by {
                        reveal(transform_failed);
                        assert(call_ensures(
                            run,
                            (sent,),
                            Result::<Vec<(String, OutputTensor<T>)>, String>::Err(msg),
                        ));
                    }
                }
                return Err(Error::Inference(msg));
            },
        };
        let ghost outputs_snap = outputs;
        batches.push(SingleBatchOutput { outputs, attention_mask: mask, rows: len, cols });
        proof {
            assert(batch_transformed(texts@, b as int, ki, tokenize, run, batches@[ki])) by {
                reveal(batch_transformed);
                assert(batches@[ki].outputs == outputs_snap && batches@[ki].attention_mask@
                    == sent.attention_mask@ && batches@[ki].rows == sent.rows
                    && batches@[ki].cols == sent.cols);
                assert(call_ensures(
                    run,
                    (sent,),
                    Result::<Vec<(String, OutputTensor<T>)>, String>::Ok(outputs_snap),
                ));
            }
        }
        k = k + 1;
    }
    Ok(EmbeddingOutput::new(batches))
}

/// The first `k` chunk lengths add up to `min(n, b * k)`.
proof fn lemma_chunks_cover_prefix<T>(
    batches: Seq<SingleBatchOutput<T>>,
    n: int,
    b: int,
    k: int,
)
    requires
        b >= 1,
        n >= 0,
        batches.len() == spec_chunk_count(n, b),
        forall|j: int|
            0 <= j < batches.len() ==> (#[trigger] batches[j]).rows as int == spec_chunk_len(
                n,
                b,
                j,
            ),
        0 <= k <= batches.len(),
    ensures
        row_offset(batches, k) == vstd::math::min(n, b * k),
    decreases k,
{
    if k == 0 {
        assert(b * 0 == 0) by (nonlinear_arith);
    } else {
        lemma_chunks_cover_prefix(batches, n, b, k - 1);
        assert(b * (k - 1) <= n && b * k == b * (k - 1) + b) by (nonlinear_arith)
            requires
                b >= 1,
                n >= 0,
                0 <= k - 1,
                k - 1 < (if n % b == 0 {
                    n / b
                } else {
                    n / b + 1
                }),
        ;
        assert(batches[k - 1].rows as int == spec_chunk_len(n, b, k - 1));
    }
}

/// A full set of planned chunks covers every input exactly once: the total
/// row count equals the number of texts.
pub proof fn lemma_chunks_cover<T>(batches: Seq<SingleBatchOutput<T>>, n: int, b: int)
    requires
        b >= 1,
        n >= 0,
        batches.len() == spec_chunk_count(n, b),
        forall|j: int|
            0 <= j < batches.len() ==> (#[trigger] batches[j]).rows as int == spec_chunk_len(
                n,
                b,
                j,
            ),
    ensures
        total_rows(batches) == n,
{
    let c = batches.len() as int;
    lemma_chunks_cover_prefix(batches, n, b, c);
    assert(b * c >= n) by (nonlinear_arith)
        requires
            b >= 1,
            n >= 0,
            c == (if n % b == 0 {
                n / b
            } else {
                n / b + 1
            }),
    ;
}



/// The embeddings are the end of an honest end-to-end run: per-batch
/// records of the planned pipeline (`batches_transformed`), their pooled
/// ordered join under the default precedence (`segment_pooled` per batch),
/// and one normalize-capability result per pooled row, in order.
#[verifier::opaque]
pub open spec fn embed_ok<
    T,
    FTok: Fn(Vec<String>) -> Result<Vec<EncodedSequence>, String>,
    FRun: Fn(BatchTensors) -> Result<Vec<(String, OutputTensor<T>)>, String>,
    FMean: Fn(Vec<Vec<T>>) -> Vec<T>,
    FNorm: Fn(Vec<T>) -> Vec<T>,
>(
    texts: Seq<String>,
    b: int,
    tokenize: FTok,
    run: FRun,
    pooling: Option<Pooling>,
    mean_reduce: FMean,
    normalize: FNorm,
    embs: Vec<Vec<T>>,
) -> bool {
    exists|batches: Vec<SingleBatchOutput<T>>, precedence: Vec<OutputKey>, pooled: Vec<Vec<T>>|
        {
            &&& #[trigger] batches_transformed(texts, b, tokenize, run, batches@)
            &&& #[trigger] crate::output_key::is_default_precedence(precedence@)
            &&& #[trigger] pooled@.len() == total_rows(batches@)
            &&& forall|k: int|
                0 <= k < batches@.len() ==> segment_pooled(
                    #[trigger] batches@[k],
                    precedence@,
                    pooling,
                    mean_reduce,
                    pooled@,
                    row_offset(batches@, k),
                )
            &&& embs@.len() == pooled@.len()
            &&& forall|i: int|
                0 <= i < embs@.len() ==> normalized_row(
                    normalize,
                    pooled@[i]@,
                    #[trigger] embs@[i],
                )
        }
}

/// Why an `embed` call failed: either its transform stage failed, with
/// that stage's provenance (`transform_failed`), or every batch
/// transformed honestly and the join failed at the first non-poolable
/// batch with that batch's selection or pooling error (`join_failed`).
#[verifier::opaque]
pub open spec fn embed_failed<
    T,
    FTok: Fn(Vec<String>) -> Result<Vec<EncodedSequence>, String>,
    FRun: Fn(BatchTensors) -> Result<Vec<(String, OutputTensor<T>)>, String>,
    FMean: Fn(Vec<Vec<T>>) -> Vec<T>,
>(
    texts: Seq<String>,
    b: int,
    tokenize: FTok,
    run: FRun,
    pooling: Option<Pooling>,
    mean_reduce: FMean,
    e: Error,
) -> bool {
    ||| transform_failed(texts, b, tokenize, run, e)
    ||| exists|batches: Vec<SingleBatchOutput<T>>, precedence: Vec<OutputKey>|
        #[trigger] batches_transformed(texts, b, tokenize, run, batches@)
            && #[trigger] crate::output_key::is_default_precedence(precedence@) && join_failed(
            batches@,
            precedence@,
            pooling,
            mean_reduce,
            e,
        )
}

/// Order preservation: with batches planned at bound `b` over `n` inputs,
/// input `i` sits in batch `i / b` at row `i % b`, and that batch's segment
/// starts at exactly `i - i % b` rows into the joined output — so the
/// pooled vector for input `i` stands at output position `i`, whatever the
/// batch size.
pub proof fn lemma_order_preserved<T>(batches: Seq<SingleBatchOutput<T>>, n: int, b: int, i: int)
    requires
        b >= 1,
        n >= 0,
        batches.len() == spec_chunk_count(n, b),
        forall|j: int|
            0 <= j < batches.len() ==> (#[trigger] batches[j]).rows as int == spec_chunk_len(
                n,
                b,
                j,
            ),
        0 <= i < n,
    ensures
        0 <= i / b < batches.len(),
        0 <= i % b < batches[i / b].rows,
        row_offset(batches, i / b) + i % b == i,
{
    let k = i / b;
    let r = i % b;
    assert(i == b * k + r && 0 <= r < b && 0 <= k) by (nonlinear_arith)
        requires
            b >= 1,
            0 <= i,
            k == i / b,
            r == i % b,
    ;
    assert(k < spec_chunk_count(n, b) && b * k <= n - 1) by (nonlinear_arith)
        requires
            b >= 1,
            0 <= i < n,
            k == i / b,
            i % b == i - b * k,
            0 <= i % b < b,
            spec_chunk_count(n, b) == (if n % b == 0 {
                n / b
            } else {
                n / b + 1
            }),
    ;
    lemma_chunks_cover_prefix(batches, n, b, k);
    assert(row_offset(batches, k) == b * k);
    assert(r < batches[k].rows);
}

/// End-to-end embedding: batches the texts, tokenizes and runs each batch,
/// selects each batch's output tensor under the default precedence, pools
/// it, and normalizes every pooled vector — returning exactly one embedding
/// per input text, in input order. An empty input yields an empty result
/// with no batch dispatched; the first failing batch aborts the whole call
/// with its error and no embeddings at all.
pub fn embed<T: Copy, FTok, FRun, FMean, FNorm>(
    texts: &Vec<String>,
    batch_size: Option<usize>,
    tokenize: FTok,
    run: FRun,
    pooling: Option<Pooling>,
    mean_reduce: FMean,
    normalize: FNorm,
) -> (result: Result<Vec<Vec<T>>, Error>) where
    FTok: Fn(Vec<String>) -> Result<Vec<EncodedSequence>, String> + Copy,
    FRun: Fn(BatchTensors) -> Result<Vec<(String, OutputTensor<T>)>, String> + Copy,
    FMean: Fn(Vec<Vec<T>>) -> Vec<T> + Copy,
    FNorm: Fn(Vec<T>) -> Vec<T> + Copy,

    requires
        batch_size matches Some(b) ==> b >= 1,
        forall|chunk: Vec<String>| call_requires(tokenize, (chunk,)),
        forall|t: BatchTensors| call_requires(run, (t,)),
        forall|args: Vec<Vec<T>>| call_requires(mean_reduce, (args,)),
        forall|v: Vec<T>| call_requires(normalize, (v,)),
    ensures
        result matches Ok(embs) ==> embs@.len() == texts@.len() && embed_ok(
            texts@,
            spec_effective_batch_size(batch_size),
            tokenize,
            run,
            pooling,
            mean_reduce,
            normalize,
            embs,
        ),
        texts@.len() == 0 ==> (result matches Ok(embs) && embs@.len() == 0),
        result matches Err(e) ==> embed_failed(
            texts@,
            spec_effective_batch_size(batch_size),
            tokenize,
            run,
            pooling,
            mean_reduce,
            e,
        ),
{
    let ghost bs = spec_effective_batch_size(batch_size);
    let out = match transform(texts, batch_size, tokenize, run) {
        Ok(o) => o,
        Err(e) => {
            proof {
                assert(embed_failed(texts@, bs, tokenize, run, pooling, mean_reduce, e)) by {
                    reveal(embed_failed);
                }
            }
            return Err(e);
        },
    };
    let precedence = default_precedence();
    let pooled = match transformer_with_precedence(&out.batches, &precedence, pooling, mean_reduce)
        {
        Ok(p) => p,
        Err(e) => {
            proof {
                assert(embed_failed(texts@, bs, tokenize, run, pooling, mean_reduce, e)) by {
                    reveal(embed_failed);
                    assert(batches_transformed(texts@, bs, tokenize, run, out.batches@)
                        && crate::output_key::is_default_precedence(precedence@) && join_failed(
                        out.batches@,
                        precedence@,
                        pooling,
                        mean_reduce,
                        e,
                    ));
                }
            }
            return Err(e);
        },
    };
    proof {
        lemma_chunks_cover(
            out.batches@,
            texts@.len() as int,
            spec_effective_batch_size(batch_size),
        );
    }
    let mut embs: Vec<Vec<T>> = Vec::new();
    let mut i: usize = 0;
    while i < pooled.len()
        invariant
            forall|v: Vec<T>| call_requires(normalize, (v,)),
            0 <= i <= pooled@.len(),
            embs@.len() == i,
            forall|j: int|
                0 <= j < i ==> normalized_row(normalize, pooled@[j]@, #[trigger] embs@[j]),
        decreases pooled@.len() - i,
    {
        let src = copy_range(&pooled[i], 0, pooled[i].len());
        let ghost src_snap = src;
        let nv = normalize(src);
        proof {
            assert(normalized_row(normalize, pooled@[i as int]@, nv)) by {
                reveal(normalized_row);
                assert(src_snap@ =~= pooled@[i as int]@);
                assert(src_snap@ == pooled@[i as int]@ && call_ensures(
                    normalize,
                    (src_snap,),
                    nv,
                ));
            }
        }
        embs.push(nv);
        i = i + 1;
    }
    proof {
        assert(embed_ok(texts@, bs, tokenize, run, pooling, mean_reduce, normalize, embs)) by {
            reveal(embed_ok);
            assert(batches_transformed(texts@, bs, tokenize, run, out.batches@)
                && crate::output_key::is_default_precedence(precedence@) && pooled@.len()
                == total_rows(out.batches@) && (forall|k: int|
                0 <= k < out.batches@.len() ==> segment_pooled(
                    #[trigger] out.batches@[k],
                    precedence@,
                    pooling,
                    mean_reduce,
                    pooled@,
                    row_offset(out.batches@, k),
                )) && embs@.len() == pooled@.len() && (forall|j: int|
                0 <= j < embs@.len() ==> normalized_row(
                    normalize,
                    pooled@[j]@,
                    #[trigger] embs@[j],
                )));
        }
    }
    Ok(embs)
}


} // verus!
