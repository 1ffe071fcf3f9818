//! Encoded sequences and the tensor builder: one tokenized text is a triple
//! of equal-length integer sequences; a batch of them is flattened into three
//! row-major 2D tensors ready for the inference backend.

use vstd::prelude::*;
use crate::errors::Error;

verus! {

/// One tokenized text: token ids, attention mask and token type ids, all of
/// the same length (the tokenizer's `max_length` after padding/truncation).
#[derive(Debug, Clone, PartialEq, Eq)]
pub struct EncodedSequence {
    pub ids: Vec<u32>,
    pub attention_mask: Vec<u32>,
    pub type_ids: Vec<u32>,
}

impl EncodedSequence {
    /// The three sequences have one common length.
    pub open spec fn wf(self) -> bool {
        self.attention_mask@.len() == self.ids@.len() && self.type_ids@.len() == self.ids@.len()
    }
}

/// The three row-major `(rows, cols)` input tensors built from one batch of
/// encoded sequences: row `r` of each tensor is the corresponding sequence of
/// `encodings[r]`, widened to `i64`.
#[derive(Debug, Clone, PartialEq, Eq)]
pub struct BatchTensors {
    pub rows: usize,
    pub cols: usize,
    pub input_ids: Vec<i64>,
    pub attention_mask: Vec<i64>,
    pub token_type_ids: Vec<i64>,
}

impl BatchTensors {
    /// All three buffers hold exactly `rows * cols` elements.
    pub open spec fn wf(self) -> bool {
        &&& self.input_ids@.len() == self.rows * self.cols
        &&& self.attention_mask@.len() == self.rows * self.cols
        &&& self.token_type_ids@.len() == self.rows * self.cols
    }

    /// Row `r` of a row-major buffer with `cols` columns.
    pub open spec fn spec_row(data: Seq<i64>, cols: int, r: int) -> Seq<i64> {
        data.subrange(r * cols, r * cols + cols)
    }
}

/// `i64` widening of a `u32` sequence.
pub open spec fn widened(s: Seq<u32>) -> Seq<i64> {
    s.map_values(|x: u32| x as i64)
}

/// The tensors are exactly the row-major flattening of `encodings`.
pub open spec fn tensors_match(t: BatchTensors, encodings: Seq<EncodedSequence>) -> bool {
    &&& t.rows == encodings.len()
    &&& forall|r: int|
        0 <= r < encodings.len() ==> BatchTensors::spec_row(t.input_ids@, t.cols as int, r)
            == widened((#[trigger] encodings[r]).ids@)
    &&& forall|r: int|
        0 <= r < encodings.len() ==> BatchTensors::spec_row(t.attention_mask@, t.cols as int, r)
            == widened((#[trigger] encodings[r]).attention_mask@)
    &&& forall|r: int|
        0 <= r < encodings.len() ==> BatchTensors::spec_row(t.token_type_ids@, t.cols as int, r)
            == widened((#[trigger] encodings[r]).type_ids@)
}

/// Every sequence has the same length as the first one, inside and out.
pub open spec fn consistent_lengths(encodings: Seq<EncodedSequence>) -> bool {
    forall|r: int|
        0 <= r < encodings.len() ==> (#[trigger] encodings[r]).wf() && encodings[r].ids@.len()
            == encodings[0].ids@.len()
}

/// Tensor builder: flattens a batch of encoded sequences into the three
/// row-major `(rows, cols)` input tensors, `cols` being the common sequence
/// length. Fails with `Error::Shape` exactly when the sequences do not all
/// share one length; an empty batch yields empty `0 x 0` tensors.
pub fn build_batch_tensors(encodings: &Vec<EncodedSequence>) -> (result: Result<
    BatchTensors,
    Error,
>)
    ensures
        result is Ok <==> consistent_lengths(encodings@),
        result matches Ok(t) ==> {
            &&& t.wf()
            &&& tensors_match(t, encodings@)
            &&& t.cols == if encodings@.len() == 0 {
                0int
            } else {
                encodings@[0].ids@.len() as int
            }
        },
        result matches Err(e) ==> e == Error::Shape,
{
    let rows = encodings.len();
    let cols = if rows == 0 {
        0
    } else {
        encodings[0].ids.len()
    };
    let mut input_ids: Vec<i64> = Vec::new();
    let mut attention_mask: Vec<i64> = Vec::new();
    let mut token_type_ids: Vec<i64> = Vec::new();
    let mut r: usize = 0;
    while r < rows
        invariant
            rows == encodings@.len(),
            cols as int == if rows == 0 {
                0int
            } else {
                encodings@[0].ids@.len() as int
            },
            0 <= r <= rows,
            input_ids@.len() == r * cols,
            attention_mask@.len() == r * cols,
            token_type_ids@.len() == r * cols,
            forall|i: int|
                0 <= i < r ==> (#[trigger] encodings@[i]).wf() && encodings@[i].ids@.len()
                    == cols,
            forall|i: int|
                0 <= i < r ==> BatchTensors::spec_row(input_ids@, cols as int, i) == widened(
                    (#[trigger] encodings@[i]).ids@,
                ),
            forall|i: int|
                0 <= i < r ==> BatchTensors::spec_row(attention_mask@, cols as int, i) == widened(
                    (#[trigger] encodings@[i]).attention_mask@,
                ),
            forall|i: int|
                0 <= i < r ==> BatchTensors::spec_row(token_type_ids@, cols as int, i) == widened(
                    (#[trigger] encodings@[i]).type_ids@,
                ),
        decreases rows - r,
    {
        let enc = &encodings[r];
        if enc.ids.len() != cols || enc.attention_mask.len() != cols || enc.type_ids.len() != cols {
            return Err(Error::Shape);
        }
        let ghost old_ids = input_ids@;
        let ghost old_mask = attention_mask@;
        let ghost old_type = token_type_ids@;
        let mut c: usize = 0;
        while c < cols
            invariant
                0 <= c <= cols,
                enc == encodings@[r as int],
                r < rows,
                rows == encodings@.len(),
                enc.ids@.len() == cols,
                enc.attention_mask@.len() == cols,
                enc.type_ids@.len() == cols,
                input_ids@ == old_ids + widened(enc.ids@).take(c as int),
                attention_mask@ == old_mask + widened(enc.attention_mask@).take(c as int),
                token_type_ids@ == old_type + widened(enc.type_ids@).take(c as int),
            decreases cols - c,
        {
            input_ids.push(enc.ids[c] as i64);
            attention_mask.push(enc.attention_mask[c] as i64);
            token_type_ids.push(enc.type_ids[c] as i64);
            proof {
                assert(input_ids@ =~= old_ids + widened(enc.ids@).take(c + 1));
                assert(attention_mask@ =~= old_mask + widened(enc.attention_mask@).take(c + 1));
                assert(token_type_ids@ =~= old_type + widened(enc.type_ids@).take(c + 1));
            }
            c = c + 1;
        }
        proof {
            assert(widened(enc.ids@).take(cols as int) =~= widened(enc.ids@));
            assert(widened(enc.attention_mask@).take(cols as int) =~= widened(enc.attention_mask@));
            assert(widened(enc.type_ids@).take(cols as int) =~= widened(enc.type_ids@));
            lemma_append_row(old_ids, widened(enc.ids@), r as int, cols as int);
            lemma_append_row(old_mask, widened(enc.attention_mask@), r as int, cols as int);
            lemma_append_row(old_type, widened(enc.type_ids@), r as int, cols as int);
        }
        r = r + 1;
    }
    Ok(BatchTensors { rows, cols, input_ids, attention_mask, token_type_ids })
}

/// Appending one `cols`-long row to an `r * cols`-long row-major buffer keeps
/// every old row and makes the new row readable at index `r`.
proof fn lemma_append_row(data: Seq<i64>, row: Seq<i64>, r: int, cols: int)
    requires
        r >= 0,
        cols >= 0,
        data.len() == r * cols,
        row.len() == cols,
    ensures
        (data + row).len() == (r + 1) * cols,
        BatchTensors::spec_row(data + row, cols, r) == row,
        forall|i: int|
            0 <= i < r ==> BatchTensors::spec_row(data + row, cols, i) == BatchTensors::spec_row(
                data,
                cols,
                i,
            ),
{
    assert((r + 1) * cols == r * cols + cols) by (nonlinear_arith);
    assert(BatchTensors::spec_row(data + row, cols, r) =~= row);
    assert forall|i: int| 0 <= i < r implies BatchTensors::spec_row(data + row, cols, i)
        == BatchTensors::spec_row(data, cols, i) by {
        assert(i * cols + cols <= r * cols) by (nonlinear_arith)
            requires
                0 <= i < r,
                cols >= 0,
        ;
        assert(i * cols >= 0) by (nonlinear_arith)
            requires
                0 <= i,
                cols >= 0,
        ;
        assert(BatchTensors::spec_row(data + row, cols, i) =~= BatchTensors::spec_row(
            data,
            cols,
            i,
        ));
    }
}

} // verus!
