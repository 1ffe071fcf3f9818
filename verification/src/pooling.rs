//! Pooling: reducing one selected output tensor to one vector per input row.
//!
//! A rank-2 tensor is already pooled and its rows pass through unchanged. A
//! rank-3 tensor is reduced per row: CLS pooling takes token 0; mean pooling
//! averages the token vectors at positions whose attention mask is 1. The
//! selection of which elements take part is verified exactly here; the
//! averaging arithmetic itself is a capability the caller supplies, since
//! the scalar type is opaque to this crate.

use vstd::prelude::*;
use crate::errors::Error;

verus! {

/// How a token-level (rank 3) output tensor is reduced to one vector per
/// row. A rank-2 tensor is used as-is, whatever the mode.
#[derive(Debug, Clone, Copy, PartialEq, Eq, Structural)]
pub enum Pooling {
    Cls,
    Mean,
}

/// A named output tensor as the backend hands it over: a dynamic shape and
/// the elements in row-major order.
#[derive(Debug, Clone, PartialEq, Eq)]
pub struct OutputTensor<T> {
    pub shape: Vec<usize>,
    pub data: Vec<T>,
}

/// A rank-2 tensor consistent with `rows` input rows: shape `[rows, h]` and
/// exactly `rows * h` elements.
pub open spec fn rank2_wf<T>(t: OutputTensor<T>, rows: int) -> bool {
    &&& t.shape@.len() == 2
    &&& t.shape@[0] == rows
    &&& t.data@.len() == t.shape@[0] * t.shape@[1]
}

/// A rank-3 tensor consistent with `rows` input rows of `cols` tokens:
/// shape `[rows, cols, h]` and exactly `rows * cols * h` elements.
pub open spec fn rank3_wf<T>(t: OutputTensor<T>, rows: int, cols: int) -> bool {
    &&& t.shape@.len() == 3
    &&& t.shape@[0] == rows
    &&& t.shape@[1] == cols
    &&& t.data@.len() == t.shape@[0] * (t.shape@[1] * t.shape@[2])
}

/// Row `r` of a rank-2 tensor.
pub open spec fn spec_rank2_row<T>(t: OutputTensor<T>, r: int) -> Seq<T> {
    t.data@.subrange(r * t.shape@[1], r * t.shape@[1] + t.shape@[1])
}

/// The hidden vector of token `tok` in row `r` of a rank-3 tensor.
pub open spec fn spec_token_vector<T>(t: OutputTensor<T>, r: int, tok: int) -> Seq<T> {
    t.data@.subrange(
        (r * t.shape@[1] + tok) * t.shape@[2],
        (r * t.shape@[1] + tok) * t.shape@[2] + t.shape@[2],
    )
}

/// The token vectors of row `r` whose attention-mask entry is 1, among
/// tokens `0 .. tok`, in token order. The mask is row-major `rows x cols`
/// with `cols == t.shape[1]`.
pub open spec fn spec_masked_vectors<T>(
    t: OutputTensor<T>,
    mask: Seq<i64>,
    r: int,
    tok: int,
) -> Seq<Seq<T>>
    decreases tok,
{
    if tok <= 0 {
        Seq::empty()
    } else {
        let rest = spec_masked_vectors(t, mask, r, tok - 1);
        if mask[r * t.shape@[1] + (tok - 1)] == 1 {
            rest.push(spec_token_vector(t, r, tok - 1))
        } else {
            rest
        }
    }
}

/// `pooled` is a possible result of `mean_reduce` applied to exactly the
/// mask-1 token vectors of row `r`.
pub open spec fn mean_pooled_row<T, F: Fn(Vec<Vec<T>>) -> Vec<T>>(
    mean_reduce: F,
    t: OutputTensor<T>,
    mask: Seq<i64>,
    r: int,
    cols: int,
    pooled: Vec<T>,
) -> bool {
    exists|args: Vec<Vec<T>>|
        args@.map_values(|v: Vec<T>| v@) == spec_masked_vectors(t, mask, r, cols) && call_ensures(
            mean_reduce,
            (args,),
            pooled,
        )
}

/// Copies `data[start .. start + len]` into a fresh vector.
pub(crate) fn copy_range<T: Copy>(data: &Vec<T>, start: usize, len: usize) -> (out: Vec<T>)
    requires
        start + len <= data@.len(),
    ensures
        out@ == data@.subrange(start as int, start as int + len),
{
    let dlen = data.len();
    let mut out: Vec<T> = Vec::new();
    let mut i: usize = 0;
    while i < len
        invariant
            0 <= i <= len,
            start + len <= data@.len(),
            data@.len() <= usize::MAX,
            out@ == data@.subrange(start as int, start as int + i),
        decreases len - i,
    {
        out.push(data[start + i]);
        proof {
            assert(out@ =~= data@.subrange(start as int, start as int + i + 1));
        }
        i = i + 1;
    }
    out
}

/// `a <= b` implies `a * c <= b * c` for non-negative `c`.
proof fn lemma_mul_mono(a: int, b: int, c: int)
    requires
        a <= b,
        c >= 0,
    ensures
        a * c <= b * c,
{
    assert(a * c <= b * c) by (nonlinear_arith)
        requires
            a <= b,
            c >= 0,
    ;
}

/// Masked token selection for one row of a rank-3 tensor: the token vectors
/// at mask-1 positions, in token order — exactly the vectors a masked mean
/// averages, and exactly as many as its divisor counts.
pub fn masked_vectors_of_row<T: Copy>(
    tensor: &OutputTensor<T>,
    mask: &Vec<i64>,
    rows: usize,
    cols: usize,
    r: usize,
) -> (sel: Vec<Vec<T>>)
    requires
        rank3_wf(*tensor, rows as int, cols as int),
        mask@.len() == rows * cols,
        r < rows,
    ensures
        sel@.map_values(|v: Vec<T>| v@) == spec_masked_vectors(
            *tensor,
            mask@,
            r as int,
            cols as int,
        ),
{
    let h = tensor.shape[2];
    let mlen = mask.len();
    let dlen = tensor.data.len();
    proof {
        assert((r + 1) * cols == r * cols + cols) by (nonlinear_arith);
        lemma_mul_mono(r as int + 1, rows as int, cols as int);
        lemma_mul_mono(r as int * cols, rows as int * cols, h as int);
        lemma_mul_mono(r as int * cols + cols, rows as int * cols, h as int);
        assert(rows as int * cols * h == rows as int * (cols as int * h)) by (nonlinear_arith);
    }
    let mbase: usize = r * cols;
    let mut tbase: usize = mbase * h;
    let mut sel: Vec<Vec<T>> = Vec::new();
    let mut tok: usize = 0;
    while tok < cols
        invariant
            rank3_wf(*tensor, rows as int, cols as int),
            mask@.len() == rows * cols,
            r < rows,
            h == tensor.shape@[2],
            0 <= tok <= cols,
            mbase == r * cols,
            mbase + cols <= mask@.len(),
            mask@.len() <= usize::MAX,
            tensor.data@.len() <= usize::MAX,
            tbase == (mbase + tok) * h,
            sel@.map_values(|v: Vec<T>| v@) == spec_masked_vectors(
                *tensor,
                mask@,
                r as int,
                tok as int,
            ),
        decreases cols - tok,
    {
        proof {
            assert((mbase + tok + 1) * h == (mbase + tok) * h + h) by (nonlinear_arith);
            lemma_mul_mono(mbase + tok + 1, rows as int * cols, h as int);
            assert(rows as int * cols * h == rows as int * (cols as int * h)) by (nonlinear_arith);
        }
        if mask[mbase + tok] == 1 {
            let vector = copy_range(&tensor.data, tbase, h);
            sel.push(vector);
            proof {
                assert(sel@.map_values(|v: Vec<T>| v@) =~= spec_masked_vectors(
                    *tensor,
                    mask@,
                    r as int,
                    tok + 1,
                ));
            }
        } else {
            proof {
                assert(sel@.map_values(|v: Vec<T>| v@) =~= spec_masked_vectors(
                    *tensor,
                    mask@,
                    r as int,
                    tok + 1,
                ));
            }
        }
        tbase = tbase + h;
        tok = tok + 1;
    }
    sel
}

/// Everything `pool_batch` promises of its result, as one predicate over
/// the selected tensor, the mask, the batch geometry and the mode.
#[verifier::opaque]
pub open spec fn pool_batch_post<T, F: Fn(Vec<Vec<T>>) -> Vec<T>>(
    tensor: OutputTensor<T>,
    mask: Seq<i64>,
    rows: int,
    cols: int,
    pooling: Option<Pooling>,
    mean_reduce: F,
    result: Result<Vec<Vec<T>>, Error>,
) -> bool {
    &&& tensor.shape.len() != 2 && tensor.shape.len() != 3 ==> result == Err::<Vec<Vec<T>>, Error>(
        Error::UnsupportedShape(tensor.shape.len() as usize),
    )
    &&& tensor.shape.len() == 2 && !rank2_wf(tensor, rows) ==> result == Err::<Vec<Vec<T>>, Error>(
        Error::Shape,
    )
    &&& tensor.shape.len() == 3 && !rank3_wf(tensor, rows, cols) ==> result == Err::<
        Vec<Vec<T>>,
        Error,
    >(Error::Shape)
    &&& rank3_wf(tensor, rows, cols) && cols == 0 && !(pooling matches Some(Pooling::Mean))
        ==> result == Err::<Vec<Vec<T>>, Error>(Error::Shape)
    &&& rank2_wf(tensor, rows) ==> (result matches Ok(out) && out@.len() == rows && forall|r: int|
        0 <= r < rows ==> out@[r]@ == spec_rank2_row(tensor, r))
    &&& rank3_wf(tensor, rows, cols) && cols >= 1 && !(pooling matches Some(Pooling::Mean)) ==> (
    result matches Ok(out) && out@.len() == rows && forall|r: int|
        0 <= r < rows ==> out@[r]@ == spec_token_vector(tensor, r, 0))
    &&& rank3_wf(tensor, rows, cols) && (pooling matches Some(Pooling::Mean)) && (forall|r: int|
        0 <= r < rows ==> spec_masked_vectors(tensor, mask, r, cols).len() > 0) ==> (
    result matches Ok(out) && out@.len() == rows && forall|r: int|
        0 <= r < rows ==> mean_pooled_row(mean_reduce, tensor, mask, r, cols, #[trigger] out@[r]))
    &&& rank3_wf(tensor, rows, cols) && (pooling matches Some(Pooling::Mean)) && !(forall|r: int|
        0 <= r < rows ==> spec_masked_vectors(tensor, mask, r, cols).len() > 0) ==> (
    result matches Err(e) && e matches Error::NumericEdgeCase(bad) && spec_masked_vectors(
        tensor,
        mask,
        bad as int,
        cols,
    ).len() == 0 && (forall|r: int|
        0 <= r < bad ==> spec_masked_vectors(tensor, mask, r, cols).len() > 0))
    &&& result matches Ok(out) ==> out@.len() == rows
    &&& result matches Err(e) ==> !(e matches Error::OutputNotFound)
    &&& result is Ok ==> {
        ||| rank2_wf(tensor, rows)
        ||| (rank3_wf(tensor, rows, cols) && !(pooling matches Some(Pooling::Mean)) && cols >= 1)
        ||| (rank3_wf(tensor, rows, cols) && (pooling matches Some(Pooling::Mean)) && forall|
            r: int,
        | 0 <= r < rows ==> spec_masked_vectors(tensor, mask, r, cols).len() > 0)
    }
}

/// Pooling engine for one batch: reduces the selected output tensor to one
/// vector per input row, under the batch's `rows x cols` attention mask.
///
/// - Any rank other than 2 or 3 fails with `UnsupportedShape`.
/// - A tensor whose shape or element count disagrees with its rank, with
///   `rows`, or (rank 3) with `cols`, fails with `Shape`; so does a rank-3
///   tensor with zero tokens per row under CLS pooling.
/// - Rank 2: the rows pass through unchanged; the mode is ignored.
/// - Rank 3 without a mode, or with CLS pooling: token 0 of each row.
/// - Rank 3 with mean pooling: each row becomes `mean_reduce` applied to
///   exactly that row's mask-1 token vectors; a row with an all-zero mask
///   fails with `NumericEdgeCase` carrying the first such row's index.
pub fn pool_batch<T: Copy, F: Fn(Vec<Vec<T>>) -> Vec<T> + Copy>(
    tensor: &OutputTensor<T>,
    mask: &Vec<i64>,
    rows: usize,
    cols: usize,
    pooling: Option<Pooling>,
    mean_reduce: F,
) -> (result: Result<Vec<Vec<T>>, Error>)
    requires
        mask@.len() == rows * cols,
        forall|args: Vec<Vec<T>>| call_requires(mean_reduce, (args,)),
    ensures
        pool_batch_post(*tensor, mask@, rows as int, cols as int, pooling, mean_reduce, result),
{
    proof {
        reveal(pool_batch_post);
    }
    let rank = tensor.shape.len();
    let dlen = tensor.data.len();
    if rank == 2 {
        if tensor.shape[0] != rows {
            return Err(Error::Shape);
        }
        let h = tensor.shape[1];
        let sized = match rows.checked_mul(h) {
            Some(total) => total == dlen,
            None => false,
        };
        if !sized {
            return Err(Error::Shape);
        }
        let mut out: Vec<Vec<T>> = Vec::new();
        let mut r: usize = 0;
        let mut base: usize = 0;
        while r < rows
            invariant
                rank2_wf(*tensor, rows as int),
                h == tensor.shape@[1],
                tensor.data@.len() <= usize::MAX,
                0 <= r <= rows,
                base == r * h,
                out@.len() == r,
                forall|i: int| 0 <= i < r ==> (#[trigger] out@[i])@ == spec_rank2_row(*tensor, i),
            decreases rows - r,
        {
            proof {
                assert((r + 1) * h == r * h + h) by (nonlinear_arith);
                lemma_mul_mono(r as int + 1, rows as int, h as int);
            }
            out.push(copy_range(&tensor.data, base, h));
            base = base + h;
            r = r + 1;
        }
        Ok(out)
    } else if rank == 3 {
        if tensor.shape[0] != rows || tensor.shape[1] != cols {
            return Err(Error::Shape);
        }
        let h = tensor.shape[2];
        let sized = match cols.checked_mul(h) {
            Some(row_stride) => match rows.checked_mul(row_stride) {
                Some(total) => total == dlen,
                None => false,
            },
            None => rows == 0 && dlen == 0,
        };
        if !sized {
            proof {
                if cols as int * h as int > usize::MAX && rows >= 1 {
                    lemma_mul_mono(1, rows as int, cols as int * h as int);
                }
            }
            return Err(Error::Shape);
        }
        match pooling {
            Some(Pooling::Mean) => {
                let mut out: Vec<Vec<T>> = Vec::new();
                let mut r: usize = 0;
                while r < rows
                    invariant
                        rank3_wf(*tensor, rows as int, cols as int),
                        pooling matches Some(Pooling::Mean),
                        mask@.len() == rows * cols,
                        forall|args: Vec<Vec<T>>| call_requires(mean_reduce, (args,)),
                        0 <= r <= rows,
                        out@.len() == r,
                        forall|i: int|
                            0 <= i < r ==> spec_masked_vectors(
                                *tensor,
                                mask@,
                                i,
                                cols as int,
                            ).len() > 0,
                        forall|i: int|
                            0 <= i < r ==> mean_pooled_row(
                                mean_reduce,
                                *tensor,
                                mask@,
                                i,
                                cols as int,
                                #[trigger] out@[i],
                            ),
                    decreases rows - r,
                {
                    let sel = masked_vectors_of_row(tensor, mask, rows, cols, r);
                    if sel.len() == 0 {
                        proof {
                            reveal(pool_batch_post);
                            assert(sel@.map_values(|v: Vec<T>| v@).len() == 0);
                        }
                        return Err(Error::NumericEdgeCase(r));
                    }
                    let ghost sel_snapshot = sel;
                    let pooled = mean_reduce(sel);
                    proof {
                        assert(sel_snapshot@.map_values(|v: Vec<T>| v@) == spec_masked_vectors(
                            *tensor,
                            mask@,
                            r as int,
                            cols as int,
                        ) && call_ensures(mean_reduce, (sel_snapshot,), pooled));
                        assert(mean_pooled_row(
                            mean_reduce,
                            *tensor,
                            mask@,
                            r as int,
                            cols as int,
                            pooled,
                        ));
                    }
                    out.push(pooled);
                    r = r + 1;
                }
                Ok(out)
            },
            _ => {
                if cols == 0 {
                    return Err(Error::Shape);
                }
                if rows == 0 {
                    return Ok(Vec::new());
                }
                proof {
                    lemma_mul_mono(1, rows as int, cols as int * h as int);
                }
                let stride = cols * h;
                let mut out: Vec<Vec<T>> = Vec::new();
                let mut r: usize = 0;
                let mut base: usize = 0;
                while r < rows
                    invariant
                        rank3_wf(*tensor, rows as int, cols as int),
                        h == tensor.shape@[2],
                        tensor.data@.len() <= usize::MAX,
                        cols >= 1,
                        stride == cols * h,
                        0 <= r <= rows,
                        base == r * stride,
                        out@.len() == r,
                        forall|i: int|
                            0 <= i < r ==> (#[trigger] out@[i])@ == spec_token_vector(
                                *tensor,
                                i,
                                0,
                            ),
                    decreases rows - r,
                {
                    proof {
                        assert((r + 1) * stride == r * stride + stride) by (nonlinear_arith);
                        lemma_mul_mono(r as int + 1, rows as int, stride as int);
                        assert(rows as int * stride == rows as int * (cols as int * h));
                        assert(h <= stride) by (nonlinear_arith)
                            requires
                                cols >= 1,
                                stride == cols * h,
                                h >= 0,
                        ;
                        assert(base == (r * cols + 0) * h) by (nonlinear_arith)
                            requires
                                base == r * stride,
                                stride == cols * h,
                        ;
                    }
                    out.push(copy_range(&tensor.data, base, h));
                    base = base + stride;
                    r = r + 1;
                }
                Ok(out)
            },
        }
    } else {
        Err(Error::UnsupportedShape(rank))
    }
}

} // verus!
