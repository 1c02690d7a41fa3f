use vstd::prelude::*;

use core::marker::PhantomData;

use crate::cost_function::CostFunction;
use crate::scalar::Scalar;
use crate::sgd_network::{copy_vec, Network};
use crate::shape::{biases_shaped, deep2, valid_sizes, weights_shaped};
use crate::sigmoid::Sigmoid;

verus! {

/// Why a stored network was rejected on loading.
#[derive(Clone, Copy, PartialEq, Eq, Structural, Debug)]
pub enum LoadError {
    /// The stored layer sizes are not a valid layer-size sequence.
    InvalidSizes,
    /// A stored parameter array disagrees with the stored layer sizes.
    ShapeMismatch,
}

/// The stored form of a network: the layer sizes, each layer's weight matrix
/// as a row-major array, each layer's bias vector, and the hyperparameters in
/// effect at save time. It names neither the cost function nor the
/// initializer — those are training-time configuration, not parameters.
pub struct NetworkRepr<S> {
    /// The layer sizes, input layer first.
    pub sizes: Vec<usize>,
    /// Per trainable layer, the weight matrix's entries row by row.
    pub weights: Vec<Vec<S>>,
    /// Per trainable layer, the bias vector.
    pub biases: Vec<Vec<S>>,
    /// The learning rate, if it was set.
    pub eta: Option<S>,
    /// The configured number of epochs.
    pub epochs: u16,
    /// The configured mini-batch size.
    pub mini_batch_size: usize,
    /// The L2 regularization coefficient.
    pub lambda: S,
}

/// The row-major entries of a matrix given as a sequence of rows.
pub open spec fn flatten_rows<S>(m: Seq<Seq<S>>) -> Seq<S>
    decreases m.len(),
{
    if m.len() == 0 {
        Seq::empty()
    } else {
        flatten_rows(m.drop_last()) + m.last()
    }
}

/// Rows of a common length flatten to exactly `rows * cols` entries.
pub proof fn lemma_flatten_rows_len<S>(m: Seq<Seq<S>>, cols: int)
    requires
        cols >= 0,
        forall|k: int| 0 <= k < m.len() ==> #[trigger] m[k].len() == cols,
    ensures
        flatten_rows(m).len() == m.len() * cols,
    decreases m.len(),
{
    if m.len() > 0 {
        lemma_flatten_rows_len(m.drop_last(), cols);
        assert((m.len() - 1) * cols + cols == m.len() * cols) by (nonlinear_arith);
    }
}

/// Two row lists of the same shape with the same row-major entries are the
/// same list: flattening loses nothing but the row boundaries.
pub proof fn lemma_flatten_rows_injective<S>(a: Seq<Seq<S>>, b: Seq<Seq<S>>)
    requires
        a.len() == b.len(),
        forall|k: int| 0 <= k < a.len() ==> #[trigger] a[k].len() == b[k].len(),
        flatten_rows(a) == flatten_rows(b),
    ensures
        a == b,
    decreases a.len(),
{
    if a.len() > 0 {
        let fa = flatten_rows(a.drop_last());
        let fb = flatten_rows(b.drop_last());
        let la = a.last();
        let lb = b.last();
        assert(flatten_rows(a) == fa + la);
        assert(flatten_rows(b) == fb + lb);
        assert(la.len() == lb.len());
        assert(fa.len() == fb.len());
        assert(la =~= (fa + la).subrange(fa.len() as int, (fa + la).len() as int));
        assert(lb =~= (fb + lb).subrange(fb.len() as int, (fb + lb).len() as int));
        assert(la == lb);
        assert(fa =~= (fa + la).subrange(0, fa.len() as int));
        assert(fb =~= (fb + lb).subrange(0, fb.len() as int));
        assert(fa == fb);
        lemma_flatten_rows_injective(a.drop_last(), b.drop_last());
        assert forall|i: int| 0 <= i < a.len() implies a[i] == b[i] by {
            if i < a.len() - 1 {
                assert(a.drop_last()[i] == b.drop_last()[i]);
            } else {
                assert(a.last() == b.last());
            }
        }
        assert(a =~= b);
    } else {
        assert(a =~= b);
    }
}

/// The stored parameter arrays agree with the stored layer sizes: one bias
/// vector and one row-major weight array per trainable layer, each of the
/// length the sizes demand.
pub open spec fn repr_shapes_ok<S>(r: &NetworkRepr<S>) -> bool {
    &&& r.biases@.len() == r.sizes@.len() - 1
    &&& forall|l: int|
        0 <= l < r.biases@.len() ==> #[trigger] r.biases@[l]@.len() == r.sizes@[l + 1]
    &&& r.weights@.len() == r.sizes@.len() - 1
    &&& forall|l: int|
        0 <= l < r.weights@.len() ==> #[trigger] r.weights@[l]@.len() == r.sizes@[l + 1]
            * r.sizes@[l]
}

/// A row-major copy of a matrix given as rows.
fn flatten_matrix<S: Scalar>(m: &Vec<Vec<S>>) -> (r: Vec<S>)
    ensures
        r@ == flatten_rows(deep2(m@)),
{
    let mut r: Vec<S> = Vec::new();
    let mut row: usize = 0;
    while row < m.len()
        invariant
            row <= m@.len(),
            r@ == flatten_rows(deep2(m@).subrange(0, row as int)),
        decreases m@.len() - row,
    {
        let width = m[row].len();
        let mut c: usize = 0;
        while c < width
            invariant
                c <= width,
                row < m@.len(),
                width == m@[row as int]@.len(),
                r@ == flatten_rows(deep2(m@).subrange(0, row as int)) + m@[row as int]@.subrange(
                    0,
                    c as int,
                ),
            decreases width - c,
        {
            r.push(m[row][c]);
            proof {
                assert(r@ =~= flatten_rows(deep2(m@).subrange(0, row as int))
                    + m@[row as int]@.subrange(0, c + 1));
            }
            c = c + 1;
        }
        proof {
            let pre = deep2(m@).subrange(0, row as int);
            let post = deep2(m@).subrange(0, row + 1);
            assert(post.drop_last() =~= pre);
            assert(post.last() == m@[row as int]@);
            assert(m@[row as int]@.subrange(0, width as int) =~= m@[row as int]@);
            assert(r@ == flatten_rows(post));
        }
        row = row + 1;
    }
    proof {
        assert(deep2(m@).subrange(0, m@.len() as int) =~= deep2(m@));
    }
    r
}

impl<S: Scalar + Sigmoid, CF: CostFunction<S>> Network<S, CF> {
    /// The network's stored form: sizes and biases copied as they stand,
    /// each weight matrix flattened row-major, and the hyperparameters in
    /// effect. Everything the stored form holds is pinned to the network's
    /// state, so a load reproduces it (see `lemma_repr_round_trip`).
    pub fn to_repr(&self) -> (r: NetworkRepr<S>)
        requires
            self.wf(),
        ensures
            r.sizes@ == self.spec_sizes(),
            deep2(r.biases@) == self.spec_biases(),
            r.weights@.len() == self.spec_weights().len(),
            forall|l: int|
                0 <= l < r.weights@.len() ==> #[trigger] r.weights@[l]@ == flatten_rows(
                    self.spec_weights()[l],
                ),
            r.eta == self.spec_eta(),
            r.epochs == self.spec_epochs(),
            r.mini_batch_size == self.spec_mini_batch_size(),
            r.lambda == self.spec_lambda(),
    {
        let sizes = copy_vec(&self.sizes);
        let mut biases: Vec<Vec<S>> = Vec::new();
        let mut l: usize = 0;
        while l < self.biases.len()
            invariant
                l <= self.biases@.len(),
                biases@.len() == l,
                forall|k: int| 0 <= k < l ==> #[trigger] biases@[k]@ == self.biases@[k]@,
            decreases self.biases@.len() - l,
        {
            biases.push(copy_vec(&self.biases[l]));
            l = l + 1;
        }
        proof {
            assert(deep2(biases@) =~= self.spec_biases());
        }
        let mut weights: Vec<Vec<S>> = Vec::new();
        let mut l: usize = 0;
        while l < self.weights.len()
            invariant
                l <= self.weights@.len(),
                weights@.len() == l,
                forall|k: int|
                    0 <= k < l ==> #[trigger] weights@[k]@ == flatten_rows(deep2(self.weights@[k]@)),
            decreases self.weights@.len() - l,
        {
            weights.push(flatten_matrix(&self.weights[l]));
            l = l + 1;
        }
        proof {
            assert forall|l: int| 0 <= l < weights@.len() implies #[trigger] weights@[l]@
                == flatten_rows(self.spec_weights()[l]) by {
                assert(self.spec_weights()[l] == deep2(self.weights@[l]@));
            }
        }
        NetworkRepr {
            sizes,
            weights,
            biases,
            eta: self.eta,
            epochs: self.epochs,
            mini_batch_size: self.mini_batch_size,
            lambda: self.lambda,
        }
    }

    /// A network restored from its stored form. Succeeds exactly when the
    /// stored sizes are a valid layer-size sequence and every parameter
    /// array has the length those sizes demand; the restored network carries
    /// the stored biases and weights exactly, the stored hyperparameters,
    /// and no monitoring setup.
    pub fn from_repr(repr: &NetworkRepr<S>) -> (r: Result<Network<S, CF>, LoadError>)
        ensures
            !valid_sizes(repr.sizes@) <==> r == Err::<Network<S, CF>, LoadError>(
                LoadError::InvalidSizes,
            ),
            valid_sizes(repr.sizes@) && !repr_shapes_ok(repr) <==> r == Err::<
                Network<S, CF>,
                LoadError,
            >(LoadError::ShapeMismatch),
            r matches Ok(net) ==> {
                &&& net.wf()
                &&& valid_sizes(repr.sizes@)
                &&& repr_shapes_ok(repr)
                &&& net.spec_sizes() == repr.sizes@
                &&& net.spec_biases() == deep2(repr.biases@)
                &&& net.spec_weights().len() == repr.weights@.len()
                &&& forall|l: int|
                    0 <= l < repr.weights@.len() ==> #[trigger] flatten_rows(net.spec_weights()[l])
                        == repr.weights@[l]@
                &&& net.spec_eta() == repr.eta
                &&& net.spec_epochs() == repr.epochs
                &&& net.spec_mini_batch_size() == repr.mini_batch_size
                &&& net.spec_lambda() == repr.lambda
                &&& net.spec_monitoring().len() == 0
                &&& net.spec_save_stats() is None
            },
    {
        let sizes = &repr.sizes;
        if sizes.len() < 2 {
            return Err(LoadError::InvalidSizes);
        }
        let mut i: usize = 0;
        while i < sizes.len()
            invariant
                sizes@ == repr.sizes@,
                sizes@.len() >= 2,
                i <= sizes@.len(),
                forall|k: int| 0 <= k < i ==> #[trigger] sizes@[k] >= 1,
            decreases sizes@.len() - i,
        {
            if sizes[i] == 0 {
                proof {
                    assert(!valid_sizes(repr.sizes@)) by {
                        assert(repr.sizes@[i as int] == 0);
                    }
                }
                return Err(LoadError::InvalidSizes);
            }
            i = i + 1;
        }
        assert(valid_sizes(repr.sizes@));
        let num_layers = sizes.len() - 1;
        if repr.biases.len() != num_layers || repr.weights.len() != num_layers {
            return Err(LoadError::ShapeMismatch);
        }
        let mut l: usize = 0;
        while l < num_layers
            invariant
                sizes@ == repr.sizes@,
                l <= num_layers,
                num_layers == sizes@.len() - 1,
                valid_sizes(repr.sizes@),
                repr.biases@.len() == num_layers,
                forall|k: int| 0 <= k < l ==> #[trigger] repr.biases@[k]@.len() == sizes@[k + 1],
            decreases num_layers - l,
        {
            if repr.biases[l].len() != sizes[l + 1] {
                proof {
                    assert(repr.biases@[l as int]@.len() != repr.sizes@[l as int + 1]);
                    assert(!repr_shapes_ok(repr));
                }
                return Err(LoadError::ShapeMismatch);
            }
            l = l + 1;
        }
        let mut biases: Vec<Vec<S>> = Vec::new();
        let mut l: usize = 0;
        while l < num_layers
            invariant
                l <= num_layers,
                repr.biases@.len() == num_layers,
                biases@.len() == l,
                forall|k: int| 0 <= k < l ==> #[trigger] biases@[k]@ == repr.biases@[k]@,
            decreases num_layers - l,
        {
            biases.push(copy_vec(&repr.biases[l]));
            l = l + 1;
        }
        let mut weights: Vec<Vec<Vec<S>>> = Vec::new();
        let mut l: usize = 0;
        while l < num_layers
            invariant
                sizes@ == repr.sizes@,
                l <= num_layers,
                num_layers == sizes@.len() - 1,
                valid_sizes(repr.sizes@),
                repr.weights@.len() == num_layers,
                forall|k: int| 0 <= k < sizes@.len() ==> #[trigger] sizes@[k] >= 1,
                weights@.len() == l,
                forall|k: int|
                    0 <= k < l ==> #[trigger] repr.weights@[k]@.len() == sizes@[k + 1] * sizes@[k],
                forall|k: int| 0 <= k < l ==> #[trigger] weights@[k]@.len() == sizes@[k + 1],
                forall|k: int, p: int|
                    0 <= k < l && 0 <= p < weights@[k]@.len() ==> #[trigger] weights@[k]@[p]@.len()
                        == sizes@[k],
                forall|k: int|
                    0 <= k < l ==> #[trigger] flatten_rows(deep2(weights@[k]@))
                        == repr.weights@[k]@,
            decreases num_layers - l,
        {
            let flat = &repr.weights[l];
            let flat_len = flat.len();
            let rows = sizes[l + 1];
            let cols = sizes[l];
            let mut m: Vec<Vec<S>> = Vec::new();
            let mut idx: usize = 0;
            let mut row: usize = 0;
            while row < rows
                invariant
                    row <= rows,
                    m@.len() == row,
                    idx == row * cols,
                    idx <= flat@.len(),
                    valid_sizes(repr.sizes@),
                    repr.weights@.len() == repr.sizes@.len() - 1,
                    l < repr.weights@.len(),
                    flat@ == repr.weights@[l as int]@,
                    rows == repr.sizes@[l as int + 1],
                    cols == repr.sizes@[l as int],
                    flat_len == flat@.len(),
                    forall|p: int| 0 <= p < row ==> #[trigger] m@[p]@.len() == cols,
                    flatten_rows(deep2(m@)) == flat@.subrange(0, idx as int),
                decreases rows - row,
            {
                if flat_len - idx < cols {
                    proof {
                        assert(row * cols + cols == (row + 1) * cols) by (nonlinear_arith);
                        assert(flat@.len() < (row + 1) * cols);
                        assert((row + 1) * cols <= rows * cols) by (nonlinear_arith)
                            requires
                                row + 1 <= rows && cols >= 0,
                        ;
                        assert(repr.weights@[l as int]@.len() != repr.sizes@[l as int + 1]
                            * repr.sizes@[l as int]);
                        assert(!repr_shapes_ok(repr));
                    }
                    return Err(LoadError::ShapeMismatch);
                }
                let mut entries: Vec<S> = Vec::new();
                let mut c: usize = 0;
                while c < cols
                    invariant
                        c <= cols,
                        entries@.len() == c,
                        idx + cols <= flat@.len(),
                        flat_len == flat@.len(),
                        entries@ == flat@.subrange(idx as int, idx + c),
                    decreases cols - c,
                {
                    entries.push(flat[idx + c]);
                    proof {
                        assert(entries@ =~= flat@.subrange(idx as int, idx + c + 1));
                    }
                    c = c + 1;
                }
                let ghost prev_m = m@;
                m.push(entries);
                proof {
                    assert((row + 1) * cols == row * cols + cols) by (nonlinear_arith);
                    assert(deep2(m@).drop_last() =~= deep2(prev_m));
                    assert(deep2(m@).last() == entries@);
                    assert(flatten_rows(deep2(m@)) == flatten_rows(deep2(prev_m)) + entries@);
                    assert(flat@.subrange(0, idx + cols) =~= flat@.subrange(0, idx as int)
                        + flat@.subrange(idx as int, idx + cols));
                }
                idx = idx + cols;
                row = row + 1;
            }
            if idx != flat_len {
                proof {
                    assert(repr.weights@[l as int]@.len() != repr.sizes@[l as int + 1]
                        * repr.sizes@[l as int]);
                    assert(!repr_shapes_ok(repr));
                }
                return Err(LoadError::ShapeMismatch);
            }
            proof {
                assert(repr.weights@[l as int]@.len() == sizes@[l as int + 1] * sizes@[l as int]);
                assert(flat@.subrange(0, flat@.len() as int) =~= flat@);
                assert(flatten_rows(deep2(m@)) == flat@);
            }
            weights.push(m);
            l = l + 1;
        }
        let net = Network {
            sizes: copy_vec(sizes),
            biases,
            weights,
            phantom: PhantomData,
            eta: repr.eta,
            epochs: repr.epochs,
            mini_batch_size: repr.mini_batch_size,
            lambda: repr.lambda,
            monitoring_options: Vec::new(),
            save_stats: None,
        };
        proof {
            assert(net.spec_biases() =~= deep2(repr.biases@));
            assert forall|k: int| 0 <= k < net.spec_biases().len()
                implies #[trigger] net.spec_biases()[k].len() == net.spec_sizes()[k + 1] by {
                assert(net.spec_biases()[k] == net.biases@[k]@);
                assert(net.biases@[k]@ == repr.biases@[k]@);
            }
            assert forall|k: int| 0 <= k < net.spec_weights().len()
                implies #[trigger] net.spec_weights()[k].len() == net.spec_sizes()[k + 1] by {
                assert(net.spec_weights()[k] == deep2(net.weights@[k]@));
            }
            assert forall|k: int, p: int|
                0 <= k < net.spec_weights().len() && 0 <= p < net.spec_weights()[k].len()
                    implies #[trigger] net.spec_weights()[k][p].len() == net.spec_sizes()[k] by {
                assert(net.spec_weights()[k] == deep2(net.weights@[k]@));
                assert(net.spec_weights()[k][p] == net.weights@[k]@[p]@);
            }
            assert forall|k: int| 0 <= k < repr.weights@.len()
                implies #[trigger] flatten_rows(net.spec_weights()[k]) == repr.weights@[k]@ by {
                assert(net.spec_weights()[k] == deep2(net.weights@[k]@));
            }
        }
        Ok(net)
    }
}

/// Saving then loading reproduces the network. A stored form taken from a
/// well-formed network relates to it as `to_repr` promises; any network that
/// relates to that stored form as `from_repr`'s success promises therefore
/// carries the same sizes, biases and weights — everything `feedforward`
/// reads — and the same hyperparameters travel through the stored form
/// unchanged.
pub proof fn lemma_repr_round_trip<S, CF>(
    saved: &Network<S, CF>,
    repr: &NetworkRepr<S>,
    loaded: &Network<S, CF>,
)
    requires
        saved.wf(),
        loaded.wf(),
        repr.sizes@ == saved.spec_sizes(),
        deep2(repr.biases@) == saved.spec_biases(),
        repr.weights@.len() == saved.spec_weights().len(),
        forall|l: int|
            0 <= l < repr.weights@.len() ==> #[trigger] repr.weights@[l]@ == flatten_rows(
                saved.spec_weights()[l],
            ),
        loaded.spec_sizes() == repr.sizes@,
        loaded.spec_biases() == deep2(repr.biases@),
        loaded.spec_weights().len() == repr.weights@.len(),
        forall|l: int|
            0 <= l < repr.weights@.len() ==> #[trigger] flatten_rows(loaded.spec_weights()[l])
                == repr.weights@[l]@,
    ensures
        loaded.spec_sizes() == saved.spec_sizes(),
        loaded.spec_biases() == saved.spec_biases(),
        loaded.spec_weights() == saved.spec_weights(),
{
    let sizes = saved.spec_sizes();
    assert forall|l: int| 0 <= l < loaded.spec_weights().len()
        implies #[trigger] loaded.spec_weights()[l] == saved.spec_weights()[l] by {
        let a = loaded.spec_weights()[l];
        let b = saved.spec_weights()[l];
        assert(a.len() == sizes[l + 1] && b.len() == sizes[l + 1]);
        assert forall|k: int| 0 <= k < a.len() implies #[trigger] a[k].len() == b[k].len() by {
            assert(a[k].len() == sizes[l]);
            assert(b[k].len() == sizes[l]);
        }
        assert(flatten_rows(a) == flatten_rows(b));
        lemma_flatten_rows_injective(a, b);
    }
    assert(loaded.spec_weights() =~= saved.spec_weights());
}

/// A stored form taken from a well-formed network passes `from_repr`'s
/// validation: loading what was saved cannot be refused.
pub proof fn lemma_to_repr_loadable<S, CF>(saved: &Network<S, CF>, repr: &NetworkRepr<S>)
    requires
        saved.wf(),
        repr.sizes@ == saved.spec_sizes(),
        deep2(repr.biases@) == saved.spec_biases(),
        repr.weights@.len() == saved.spec_weights().len(),
        forall|l: int|
            0 <= l < repr.weights@.len() ==> #[trigger] repr.weights@[l]@ == flatten_rows(
                saved.spec_weights()[l],
            ),
    ensures
        valid_sizes(repr.sizes@),
        repr_shapes_ok(repr),
{
    let sizes = saved.spec_sizes();
    assert(repr.biases@.len() == deep2(repr.biases@).len());
    assert forall|l: int| 0 <= l < repr.biases@.len() implies #[trigger] repr.biases@[l]@.len()
        == repr.sizes@[l + 1] by {
        assert(deep2(repr.biases@)[l] == repr.biases@[l]@);
        assert(saved.spec_biases()[l].len() == sizes[l + 1]);
    }
    assert forall|l: int| 0 <= l < repr.weights@.len() implies #[trigger] repr.weights@[l]@.len()
        == repr.sizes@[l + 1] * repr.sizes@[l] by {
        let m = saved.spec_weights()[l];
        assert(m.len() == sizes[l + 1]);
        assert forall|k: int| 0 <= k < m.len() implies #[trigger] m[k].len() == sizes[l] by {}
        lemma_flatten_rows_len(m, sizes[l] as int);
    }
}

} // verus!
