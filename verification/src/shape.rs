use vstd::prelude::*;

verus! {

/// A layer-size sequence is valid when it names at least an input and an
/// output layer and every layer is at least one neuron wide.
pub open spec fn valid_sizes(sizes: Seq<usize>) -> bool {
    &&& sizes.len() >= 2
    &&& forall|i: int| 0 <= i < sizes.len() ==> #[trigger] sizes[i] >= 1
}

/// The element-wise view of a vector of vectors.
pub open spec fn deep2<S>(v: Seq<Vec<S>>) -> Seq<Seq<S>> {
    Seq::new(v.len(), |i: int| v[i]@)
}

/// The element-wise view of a vector of matrices.
pub open spec fn deep3<S>(v: Seq<Vec<Vec<S>>>) -> Seq<Seq<Seq<S>>> {
    Seq::new(v.len(), |i: int| deep2(v[i]@))
}

/// One bias vector per trainable layer, the vector for layer `l` as long as
/// the layer it feeds (`sizes[l + 1]`).
pub open spec fn biases_shaped<S>(b: Seq<Seq<S>>, sizes: Seq<usize>) -> bool {
    &&& b.len() == sizes.len() - 1
    &&& forall|l: int| 0 <= l < b.len() ==> #[trigger] b[l].len() == sizes[l + 1]
}

/// One weight matrix per trainable layer, the matrix for layer `l` with
/// `sizes[l + 1]` rows of `sizes[l]` columns each.
pub open spec fn weights_shaped<S>(w: Seq<Seq<Seq<S>>>, sizes: Seq<usize>) -> bool {
    &&& w.len() == sizes.len() - 1
    &&& forall|l: int| 0 <= l < w.len() ==> #[trigger] w[l].len() == sizes[l + 1]
    &&& forall|l: int, r: int|
        0 <= l < w.len() && 0 <= r < w[l].len() ==> #[trigger] w[l][r].len() == sizes[l]
}

/// A sample pairs an input of the network's input width with a target of its
/// output width.
pub open spec fn sample_shaped<S>(s: (Vec<S>, Vec<S>), in_width: int, out_width: int) -> bool {
    &&& s.0@.len() == in_width
    &&& s.1@.len() == out_width
}

/// Every sample of a dataset has the required input and target widths.
pub open spec fn data_shaped<S>(
    d: Seq<(Vec<S>, Vec<S>)>,
    in_width: int,
    out_width: int,
) -> bool {
    forall|i: int| 0 <= i < d.len() ==> #[trigger] sample_shaped(d[i], in_width, out_width)
}

} // verus!
