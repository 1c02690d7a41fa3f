use vstd::prelude::*;

use crate::persistence::flatten_rows;
use crate::scalar::Scalar;
use crate::sgd_network::copy_vec;
use crate::shape::{data_shaped, sample_shaped};

verus! {

/// A one-hot target: `width` coordinates, the one at `label` set to one and
/// the rest to zero. A label outside the width gives an all-zero vector.
pub fn one_hot<S: Scalar>(label: usize, width: usize) -> (r: Vec<S>)
    ensures
        r@.len() == width,
{
    let mut r: Vec<S> = Vec::new();
    let mut i: usize = 0;
    while i < width
        invariant
            i <= width,
            r@.len() == i,
        decreases width - i,
    {
        if i == label {
            r.push(S::one());
        } else {
            r.push(S::zero());
        }
        i = i + 1;
    }
    r
}

/// One classification sample: the `width` pixel bytes starting at `start`,
/// each mapped to the scalar standing for its value, paired with the one-hot
/// target for `label` over `classes` classes.
pub fn make_datum<S: Scalar>(
    pixels: &Vec<u8>,
    start: usize,
    width: usize,
    label: usize,
    classes: usize,
) -> (r: (Vec<S>, Vec<S>))
    requires
        start + width <= pixels@.len(),
    ensures
        sample_shaped(r, width as int, classes as int),
{
    let total = pixels.len();
    let mut inputs: Vec<S> = Vec::new();
    let mut i: usize = 0;
    while i < width
        invariant
            i <= width,
            inputs@.len() == i,
            total == pixels@.len(),
            start + width <= total,
        decreases width - i,
    {
        inputs.push(S::from_count(pixels[start + i] as usize));
        i = i + 1;
    }
    (inputs, one_hot(label, classes))
}

/// A classification dataset from a flat pixel array and its labels: sample
/// `i` takes the `width` pixels starting at `i * width` and the one-hot
/// target of `labels[i]`. One sample per label, each of the stated widths.
pub fn make_data<S: Scalar>(
    pixels: &Vec<u8>,
    labels: &Vec<u8>,
    width: usize,
    classes: usize,
) -> (r: Vec<(Vec<S>, Vec<S>)>)
    requires
        pixels@.len() == labels@.len() * width,
    ensures
        r@.len() == labels@.len(),
        data_shaped(r@, width as int, classes as int),
{
    let total = pixels.len();
    let mut r: Vec<(Vec<S>, Vec<S>)> = Vec::new();
    let mut i: usize = 0;
    let mut start: usize = 0;
    while i < labels.len()
        invariant
            i <= labels@.len(),
            r@.len() == i,
            start == i * width,
            total == pixels@.len(),
            pixels@.len() == labels@.len() * width,
            data_shaped(r@, width as int, classes as int),
        decreases labels@.len() - i,
    {
        proof {
            assert(i * width + width == (i + 1) * width) by (nonlinear_arith);
            assert((i + 1) * width <= labels@.len() * width) by (nonlinear_arith)
                requires
                    i + 1 <= labels@.len() && width >= 0,
            ;
        }
        let datum = make_datum(pixels, start, width, labels[i] as usize, classes);
        r.push(datum);
        start = start + width;
        i = i + 1;
    }
    r
}

/// Sliding-window samples over a record sequence. Each record pairs an input
/// vector of a common width with a target vector of a common width; sample
/// `i` concatenates, in order, the inputs of records `i` to
/// `i + window - 1`, and takes unchanged the target of record
/// `i + window + offset`. There is one sample for each position where that
/// target record exists.
pub fn window_samples<S: Scalar>(
    records: &Vec<(Vec<S>, Vec<S>)>,
    window: usize,
    offset: usize,
    input_width: usize,
    target_width: usize,
) -> (r: Vec<(Vec<S>, Vec<S>)>)
    requires
        window + offset <= records@.len(),
        forall|k: int| 0 <= k < records@.len() ==> (#[trigger] records@[k]).0@.len() == input_width,
        forall|k: int|
            0 <= k < records@.len() ==> (#[trigger] records@[k]).1@.len() == target_width,
    ensures
        r@.len() == records@.len() - window - offset,
        forall|i: int|
            0 <= i < r@.len() ==> (#[trigger] r@[i]).1@ == records@[window + offset + i].1@,
        forall|i: int|
            0 <= i < r@.len() ==> (#[trigger] r@[i]).0@ == flatten_rows(
                Seq::new(window as nat, |j: int| records@[i + j].0@),
            ),
        data_shaped(r@, window * input_width, target_width as int),
{
    let n = records.len();
    let skip = window + offset;
    let count = n - skip;
    let mut r: Vec<(Vec<S>, Vec<S>)> = Vec::new();
    let mut i: usize = 0;
    while i < count
        invariant
            i <= count,
            r@.len() == i,
            n == records@.len(),
            count == records@.len() - skip,
            skip == window + offset,
            forall|k: int|
                0 <= k < records@.len() ==> (#[trigger] records@[k]).0@.len() == input_width,
            forall|k: int|
                0 <= k < records@.len() ==> (#[trigger] records@[k]).1@.len() == target_width,
            forall|p: int|
                0 <= p < i ==> (#[trigger] r@[p]).1@ == records@[window + offset + p].1@,
            forall|p: int|
                0 <= p < i ==> (#[trigger] r@[p]).0@ == flatten_rows(
                    Seq::new(window as nat, |j: int| records@[p + j].0@),
                ),
            forall|p: int|
                0 <= p < i ==> #[trigger] sample_shaped(
                    r@[p],
                    window * input_width,
                    target_width as int,
                ),
        decreases count - i,
    {
        let ghost rows = Seq::new(window as nat, |j: int| records@[i + j].0@);
        let mut inputs: Vec<S> = Vec::new();
        let mut j: usize = 0;
        while j < window
            invariant
                j <= window,
                n == records@.len(),
                i + window <= n,
                forall|k: int|
                    0 <= k < records@.len() ==> (#[trigger] records@[k]).0@.len() == input_width,
                rows == Seq::new(window as nat, |q: int| records@[i + q].0@),
                inputs@ == flatten_rows(rows.subrange(0, j as int)),
            decreases window - j,
        {
            let source = &records[i + j].0;
            let width = source.len();
            let ghost before = inputs@;
            let mut c: usize = 0;
            while c < width
                invariant
                    c <= width,
                    i + j < records@.len(),
                    width == records@[i + j].0@.len(),
                    source@ == records@[i + j].0@,
                    inputs@ == before + source@.subrange(0, c as int),
                decreases width - c,
            {
                inputs.push(source[c]);
                proof {
                    assert(inputs@ =~= before + source@.subrange(0, c + 1));
                }
                c = c + 1;
            }
            proof {
                let pre = rows.subrange(0, j as int);
                let post = rows.subrange(0, j + 1);
                assert(post.drop_last() =~= pre);
                assert(post.last() == records@[i + j].0@);
                assert(source@.subrange(0, width as int) =~= source@);
                assert(inputs@ == flatten_rows(post));
            }
            j = j + 1;
        }
        proof {
            assert(rows.subrange(0, window as int) =~= rows);
            assert forall|k: int| 0 <= k < rows.len() implies #[trigger] rows[k].len()
                == input_width by {
                assert(rows[k] == records@[i + k].0@);
            }
            crate::persistence::lemma_flatten_rows_len(rows, input_width as int);
        }
        let target = copy_vec(&records[skip + i].1);
        r.push((inputs, target));
        i = i + 1;
    }
    r
}

} // verus!
