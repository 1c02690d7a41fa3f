use vstd::prelude::*;

use crate::scalar::Scalar;
use crate::shape::{biases_shaped, deep2, deep3, valid_sizes, weights_shaped};

verus! {

/// A stream of draws from a standard normal distribution, supplied by the
/// caller so that initialization has no hidden process-wide state. Nothing is
/// claimed of the values drawn.
pub trait RandomSource<S>: Sized {
    /// The next draw.
    fn next_sample(&mut self) -> S;
}

/// A deterministic source that replays a fixed list of draws, then yields
/// zero once the list is exhausted. An empty list gives all-zero parameters.
pub struct FixedSource<S> {
    /// The draws to replay, in order.
    pub samples: Vec<S>,
    /// How many draws have been handed out.
    pub used: usize,
}

impl<S: Scalar> FixedSource<S> {
    /// A source that replays `samples` and then yields zero.
    pub fn new(samples: Vec<S>) -> (r: FixedSource<S>)
        ensures
            r.samples@ == samples@,
            r.used == 0,
    {
        FixedSource { samples, used: 0 }
    }
}

impl<S: Scalar> RandomSource<S> for FixedSource<S> {
    fn next_sample(&mut self) -> S {
        if self.used < self.samples.len() {
            let s = self.samples[self.used];
            self.used = self.used + 1;
            s
        } else {
            S::zero()
        }
    }
}

/// An initialization strategy: from a layer-size sequence, one bias vector
/// and one weight matrix per trainable layer, with the shapes the network
/// invariant demands — the matrix for layer `l` has `sizes[l + 1]` rows of
/// `sizes[l]` columns, and the bias vector for layer `l` has `sizes[l + 1]`
/// entries.
pub trait NetworkInitializer<S: Scalar>: Sized {
    /// Draws initial biases and weights for the given layer sizes.
    fn init(&mut self, sizes: &Vec<usize>) -> (r: (Vec<Vec<S>>, Vec<Vec<Vec<S>>>))
        requires
            valid_sizes(sizes@),
        ensures
            biases_shaped(deep2(r.0@), sizes@),
            weights_shaped(deep3(r.1@), sizes@),
    ;
}

/// Basic initialization: every weight and bias is an independent standard
/// normal draw.
pub struct Basic<R> {
    /// The random source the draws come from.
    pub source: R,
}

/// Scaled initialization: biases as in [`Basic`]; each weight is a standard
/// normal draw divided by the square root of its layer's fan-in, which keeps
/// early activations away from saturation.
pub struct Scaled<R> {
    /// The random source the draws come from.
    pub source: R,
}

/// One bias vector per trainable layer, each entry drawn from the source.
fn make_biases<S: Scalar, R: RandomSource<S>>(source: &mut R, sizes: &Vec<usize>) -> (r: Vec<
    Vec<S>,
>)
    requires
        valid_sizes(sizes@),
    ensures
        biases_shaped(deep2(r@), sizes@),
{
    let mut biases: Vec<Vec<S>> = Vec::new();
    let mut l: usize = 1;
    while l < sizes.len()
        invariant
            1 <= l <= sizes@.len(),
            biases@.len() == l - 1,
            forall|k: int| 0 <= k < biases@.len() ==> #[trigger] biases@[k]@.len() == sizes@[k + 1],
        decreases sizes@.len() - l,
    {
        let mut b: Vec<S> = Vec::new();
        let width = sizes[l];
        let mut i: usize = 0;
        while i < width
            invariant
                i <= width,
                b@.len() == i,
            decreases width - i,
        {
            b.push(source.next_sample());
            i = i + 1;
        }
        biases.push(b);
        l = l + 1;
    }
    assert forall|k: int| 0 <= k < deep2(biases@).len() implies #[trigger] deep2(biases@)[k].len()
        == sizes@[k + 1] by {
        assert(deep2(biases@)[k] == biases@[k]@);
    }
    biases
}

/// One weight matrix per trainable layer; `entry` gives each entry from the
/// source and the layer's fan-in.
fn make_weights<S: Scalar, R: RandomSource<S>>(
    source: &mut R,
    sizes: &Vec<usize>,
    scaled: bool,
) -> (r: Vec<Vec<Vec<S>>>)
    requires
        valid_sizes(sizes@),
    ensures
        weights_shaped(deep3(r@), sizes@),
{
    let mut weights: Vec<Vec<Vec<S>>> = Vec::new();
    let mut l: usize = 1;
    while l < sizes.len()
        invariant
            1 <= l <= sizes@.len(),
            weights@.len() == l - 1,
            forall|k: int| 0 <= k < weights@.len() ==> #[trigger] weights@[k]@.len() == sizes@[k
                + 1],
            forall|k: int, row: int|
                0 <= k < weights@.len() && 0 <= row < weights@[k]@.len()
                    ==> #[trigger] weights@[k]@[row]@.len() == sizes@[k],
        decreases sizes@.len() - l,
    {
        let rows = sizes[l];
        let cols = sizes[l - 1];
        let mut m: Vec<Vec<S>> = Vec::new();
        let mut row: usize = 0;
        while row < rows
            invariant
                row <= rows,
                m@.len() == row,
                forall|p: int| 0 <= p < m@.len() ==> #[trigger] m@[p]@.len() == cols,
            decreases rows - row,
        {
            let mut entries: Vec<S> = Vec::new();
            let mut c: usize = 0;
            while c < cols
                invariant
                    c <= cols,
                    entries@.len() == c,
                decreases cols - c,
            {
                let draw = source.next_sample();
                let entry = if scaled {
                    draw.over(S::from_count(cols).sqrt())
                } else {
                    draw
                };
                entries.push(entry);
                c = c + 1;
            }
            m.push(entries);
            row = row + 1;
        }
        weights.push(m);
        l = l + 1;
    }
    assert forall|k: int| 0 <= k < deep3(weights@).len() implies #[trigger] deep3(weights@)[k].len()
        == sizes@[k + 1] by {
        assert(deep3(weights@)[k] == deep2(weights@[k]@));
    }
    assert forall|k: int, row: int|
        0 <= k < deep3(weights@).len() && 0 <= row < deep3(weights@)[k].len()
            implies #[trigger] deep3(weights@)[k][row].len() == sizes@[k] by {
        assert(deep3(weights@)[k] == deep2(weights@[k]@));
        assert(deep2(weights@[k]@)[row] == weights@[k]@[row]@);
    }
    weights
}

impl<S: Scalar, R: RandomSource<S>> NetworkInitializer<S> for Basic<R> {
    fn init(&mut self, sizes: &Vec<usize>) -> (r: (Vec<Vec<S>>, Vec<Vec<Vec<S>>>)) {
        let biases = make_biases(&mut self.source, sizes);
        let weights = make_weights(&mut self.source, sizes, false);
        (biases, weights)
    }
}

impl<S: Scalar, R: RandomSource<S>> NetworkInitializer<S> for Scaled<R> {
    fn init(&mut self, sizes: &Vec<usize>) -> (r: (Vec<Vec<S>>, Vec<Vec<Vec<S>>>)) {
        let biases = make_biases(&mut self.source, sizes);
        let weights = make_weights(&mut self.source, sizes, true);
        (biases, weights)
    }
}

} // verus!
