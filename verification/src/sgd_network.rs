use vstd::multiset::Multiset;
use vstd::prelude::*;

use core::marker::PhantomData;

use crate::cost_function::CostFunction;
use crate::network_initializer::NetworkInitializer;
use crate::scalar::Scalar;
use crate::shape::{
    biases_shaped, data_shaped, deep2, deep3, sample_shaped, valid_sizes, weights_shaped,
};
use crate::sigmoid::{sigmoid_all, sigmoid_prime_all, Sigmoid};

verus! {

/// The monitoring computations that can run after each training epoch.
#[derive(Clone, Copy, PartialEq, Eq, Structural, Debug)]
pub enum MonitoringOption {
    /// Mean cost over the evaluation set, plus the L2 penalty.
    MonitorEvaluationCost,
    /// How many evaluation samples the network classifies correctly.
    MonitorEvaluationAccuracy,
    /// Mean cost over the training set, plus the L2 penalty.
    MonitorTrainingCost,
    /// How many training samples the network classifies correctly.
    MonitorTrainingAccuracy,
}

/// Why a training run was refused before it started.
#[derive(Clone, Copy, PartialEq, Eq, Structural, Debug)]
pub enum ConfigError {
    /// The learning rate was never set to a positive value.
    EtaNotPositive,
    /// The mini-batch size is zero or exceeds the training set.
    BadMiniBatchSize,
    /// A monitoring option needs evaluation data, but none was supplied.
    MissingEvaluationData,
    /// A sample's input or target width differs from the layer sizes.
    ShapeMismatch,
}

/// The figures recorded after one epoch; each is present exactly when the
/// matching monitoring option was enabled. Accuracies are counts of samples
/// whose predicted class matches the target class.
#[derive(Debug)]
pub struct Stats<S> {
    /// Which epoch the figures belong to, counted from zero.
    pub epoch: Option<u16>,
    /// Cost over the evaluation set.
    pub evaluation_cost: Option<S>,
    /// Correctly classified evaluation samples.
    pub evaluation_accuracy: Option<usize>,
    /// Cost over the training set.
    pub training_cost: Option<S>,
    /// Correctly classified training samples.
    pub training_accuracy: Option<usize>,
}

/// A fully-connected feedforward network: a layer-size sequence, one weight
/// matrix and one bias vector per trainable layer, and the hyperparameters a
/// training run uses. `CF` picks the cost function at the type level and
/// holds no data.
#[derive(Debug)]
pub struct Network<S, CF> {
    /// The layer sizes, input layer first; at least two, all positive.
    pub sizes: Vec<usize>,
    /// One bias vector per trainable layer.
    pub biases: Vec<Vec<S>>,
    /// One weight matrix per trainable layer, as rows of entries.
    pub weights: Vec<Vec<Vec<S>>>,
    /// Carries the cost-function choice at the type level.
    pub phantom: PhantomData<CF>,
    /// The learning rate, once set.
    pub eta: Option<S>,
    /// How many epochs a training run performs.
    pub epochs: u16,
    /// The mini-batch size a training run partitions the data into.
    pub mini_batch_size: usize,
    /// The L2 regularization coefficient.
    pub lambda: S,
    /// The enabled monitoring options.
    pub monitoring_options: Vec<MonitoringOption>,
    /// Where epoch statistics should be written, if anywhere.
    pub save_stats: Option<String>,
}

impl<S, CF> Network<S, CF> {
    /// The layer sizes, input layer first.
    pub open spec fn spec_sizes(&self) -> Seq<usize> {
        self.sizes@
    }

    /// The bias vectors, one per trainable layer.
    pub open spec fn spec_biases(&self) -> Seq<Seq<S>> {
        deep2(self.biases@)
    }

    /// The weight matrices, one per trainable layer, as rows of entries.
    pub open spec fn spec_weights(&self) -> Seq<Seq<Seq<S>>> {
        deep3(self.weights@)
    }

    /// The learning rate, once set.
    pub open spec fn spec_eta(&self) -> Option<S> {
        self.eta
    }

    /// How many epochs a training run performs.
    pub open spec fn spec_epochs(&self) -> u16 {
        self.epochs
    }

    /// The mini-batch size a training run partitions the data into.
    pub open spec fn spec_mini_batch_size(&self) -> usize {
        self.mini_batch_size
    }

    /// The L2 regularization coefficient.
    pub open spec fn spec_lambda(&self) -> S {
        self.lambda
    }

    /// The enabled monitoring options, in the order they were given.
    pub open spec fn spec_monitoring(&self) -> Seq<MonitoringOption> {
        self.monitoring_options@
    }

    /// Where epoch statistics should be written, if anywhere.
    pub open spec fn spec_save_stats(&self) -> Option<Seq<char>> {
        match self.save_stats {
            Some(ref p) => Some(p@),
            None => None,
        }
    }

    /// The width of the input layer.
    pub open spec fn spec_input_width(&self) -> int {
        self.spec_sizes()[0] as int
    }

    /// The width of the output layer.
    pub open spec fn spec_output_width(&self) -> int {
        self.spec_sizes()[self.spec_sizes().len() - 1] as int
    }

    /// Well-formedness: valid layer sizes and parameters of exactly the
    /// shapes those sizes demand — weight matrix `l` is `sizes[l + 1]` rows
    /// of `sizes[l]` columns, bias vector `l` has `sizes[l + 1]` entries.
    pub open spec fn wf(&self) -> bool {
        &&& valid_sizes(self.spec_sizes())
        &&& biases_shaped(self.spec_biases(), self.spec_sizes())
        &&& weights_shaped(self.spec_weights(), self.spec_sizes())
    }

    /// Both networks hold the same sizes, weights and biases.
    pub open spec fn params_eq(&self, other: &Self) -> bool {
        &&& self.spec_sizes() == other.spec_sizes()
        &&& self.spec_biases() == other.spec_biases()
        &&& self.spec_weights() == other.spec_weights()
    }

    /// Both networks hold the same hyperparameters and monitoring setup.
    pub open spec fn config_eq(&self, other: &Self) -> bool {
        &&& self.spec_eta() == other.spec_eta()
        &&& self.spec_epochs() == other.spec_epochs()
        &&& self.spec_mini_batch_size() == other.spec_mini_batch_size()
        &&& self.spec_lambda() == other.spec_lambda()
        &&& self.spec_monitoring() == other.spec_monitoring()
        &&& self.spec_save_stats() == other.spec_save_stats()
    }
}

/// A fresh vector with the same entries.
pub(crate) fn copy_vec<T: Copy>(v: &Vec<T>) -> (r: Vec<T>)
    ensures
        r@ == v@,
{
    let mut r: Vec<T> = Vec::new();
    let mut i: usize = 0;
    while i < v.len()
        invariant
            i <= v@.len(),
            r@ == v@.subrange(0, i as int),
        decreases v@.len() - i,
    {
        r.push(v[i]);
        i = i + 1;
    }
    assert(r@ == v@);
    r
}

/// Relies on rand::random_range over `0..n`: the result lies in the range,
/// which is nonempty because `n >= 1`, and the draw comes from the thread's
/// generator, so nothing else is claimed of it.
#[verifier::external_body]
fn random_below(n: usize) -> (r: usize)
    requires
        n >= 1,
    ensures
        r < n,
{
    rand::random_range(0..n)
}

/// Rearranges the elements in a random order: repeatedly draws one of the
/// remaining elements and appends it to the result. The multiset of elements
/// — and so the length — is unchanged, whatever is drawn.
pub fn shuffle<T>(v: &mut Vec<T>)
    ensures
        final(v)@.to_multiset() == old(v)@.to_multiset(),
        final(v)@.len() == old(v)@.len(),
{
    broadcast use vstd::seq_lib::group_to_multiset_ensures;
    broadcast use vstd::multiset::group_multiset_axioms;
    broadcast use vstd::multiset::group_multiset_properties;

    let ghost orig = v@;
    let mut out: Vec<T> = Vec::new();
    while v.len() > 0
        invariant
            out@.to_multiset().add(v@.to_multiset()) == orig.to_multiset(),
            out@.len() + v@.len() == orig.len(),
        decreases v@.len(),
    {
        let j = random_below(v.len());
        let ghost prev_v = v@;
        let ghost prev_out = out@;
        let x = v.remove(j);
        out.push(x);
        proof {
            assert(prev_v.contains(x)) by {
                assert(prev_v[j as int] == x);
            }
            vstd::seq_lib::to_multiset_contains(prev_v, x);
            assert(prev_v.to_multiset().count(x) > 0);
            vstd::seq_lib::to_multiset_build(prev_out, x);
            assert(out@.to_multiset() =~= prev_out.to_multiset().insert(x));
            vstd::seq_lib::to_multiset_remove(prev_v, j as int);
            assert(v@.to_multiset() =~= prev_v.to_multiset().remove(x));
            assert(out@.to_multiset().add(v@.to_multiset()) =~= prev_out.to_multiset().add(
                prev_v.to_multiset(),
            ));
        }
    }
    proof {
        assert(v@.to_multiset().len() == 0);
        assert(v@.to_multiset() =~= Multiset::empty());
        assert(out@.to_multiset() =~= out@.to_multiset().add(Multiset::empty()));
    }
    *v = out;
}

/// The index of the first maximal coordinate, as the scalar order answers
/// it: a later index is taken only when it strictly exceeds the current
/// best. Only the index's range can be promised, since no laws hold of the
/// scalar order.
pub fn argmax<S: Scalar>(v: &Vec<S>) -> (r: usize)
    requires
        v@.len() >= 1,
    ensures
        r < v@.len(),
{
    let mut best: usize = 0;
    let mut i: usize = 1;
    while i < v.len()
        invariant
            1 <= i <= v@.len(),
            best < i,
        decreases v@.len() - i,
    {
        if v[best].lt(v[i]) {
            best = i;
        }
        i = i + 1;
    }
    best
}

/// How many pairs agree in both coordinates.
pub open spec fn spec_match_count(pairs: Seq<(usize, usize)>) -> int
    decreases pairs.len(),
{
    if pairs.len() == 0 {
        0
    } else {
        spec_match_count(pairs.drop_last()) + if pairs.last().0 == pairs.last().1 {
            1int
        } else {
            0int
        }
    }
}

/// Counts the pairs whose two coordinates agree — for accuracy, the pairs of
/// predicted and target class indices.
pub fn count_matching(pairs: &Vec<(usize, usize)>) -> (r: usize)
    ensures
        r == spec_match_count(pairs@),
        r <= pairs@.len(),
{
    let mut r: usize = 0;
    let mut i: usize = 0;
    while i < pairs.len()
        invariant
            i <= pairs@.len(),
            r <= i,
            r == spec_match_count(pairs@.subrange(0, i as int)),
        decreases pairs@.len() - i,
    {
        let p = pairs[i];
        proof {
            let pre = pairs@.subrange(0, i as int);
            let post = pairs@.subrange(0, i + 1);
            assert(post.drop_last() =~= pre);
            assert(post.last() == pairs@[i as int]);
        }
        if p.0 == p.1 {
            r = r + 1;
        }
        i = i + 1;
    }
    assert(pairs@.subrange(0, pairs@.len() as int) =~= pairs@);
    r
}

/// When every prediction's class matches its target's class, the match count
/// is the whole batch: accuracy on such a batch is one hundred percent.
pub proof fn lemma_all_matching_counted(pairs: Seq<(usize, usize)>)
    requires
        forall|i: int| 0 <= i < pairs.len() ==> (#[trigger] pairs[i]).0 == pairs[i].1,
    ensures
        spec_match_count(pairs) == pairs.len(),
    decreases pairs.len(),
{
    if pairs.len() > 0 {
        lemma_all_matching_counted(pairs.drop_last());
    }
}

/// Whether the option is among the enabled ones.
fn has_option(opts: &Vec<MonitoringOption>, o: MonitoringOption) -> (r: bool)
    ensures
        r == opts@.contains(o),
{
    let mut i: usize = 0;
    while i < opts.len()
        invariant
            i <= opts@.len(),
            forall|k: int| 0 <= k < i ==> opts@[k] != o,
        decreases opts@.len() - i,
    {
        if opts[i] == o {
            assert(opts@.contains(o)) by {
                assert(opts@[i as int] == o);
            }
            return true;
        }
        i = i + 1;
    }
    false
}

/// Whether every sample has the given input and target widths.
fn check_data_shapes<S>(data: &Vec<(Vec<S>, Vec<S>)>, in_width: usize, out_width: usize) -> (r:
    bool)
    ensures
        r == data_shaped(data@, in_width as int, out_width as int),
{
    let mut i: usize = 0;
    while i < data.len()
        invariant
            i <= data@.len(),
            forall|k: int|
                0 <= k < i ==> #[trigger] sample_shaped(data@[k], in_width as int, out_width as int),
        decreases data@.len() - i,
    {
        let sample = &data[i];
        if sample.0.len() != in_width || sample.1.len() != out_width {
            assert(!sample_shaped(data@[i as int], in_width as int, out_width as int));
            return false;
        }
        assert(sample_shaped(data@[i as int], in_width as int, out_width as int));
        i = i + 1;
    }
    true
}

/// Two datasets with the same elements are shaped alike: shuffling cannot
/// change any sample's widths.
pub proof fn lemma_same_multiset_same_shapes<S>(
    a: Seq<(Vec<S>, Vec<S>)>,
    b: Seq<(Vec<S>, Vec<S>)>,
    in_width: int,
    out_width: int,
)
    requires
        a.to_multiset() == b.to_multiset(),
        data_shaped(a, in_width, out_width),
    ensures
        data_shaped(b, in_width, out_width),
{
    assert forall|i: int| 0 <= i < b.len() implies #[trigger] sample_shaped(
        b[i],
        in_width,
        out_width,
    ) by {
        assert(b.contains(b[i]));
        vstd::seq_lib::to_multiset_contains(b, b[i]);
        vstd::seq_lib::to_multiset_contains(a, b[i]);
        assert(a.contains(b[i]));
        let j = choose|j: int| 0 <= j < a.len() && a[j] == b[i];
        assert(sample_shaped(a[j], in_width, out_width));
    }
}

/// Whether the enabled monitoring options require evaluation data.
pub open spec fn needs_eval(opts: Seq<MonitoringOption>) -> bool {
    ||| opts.contains(MonitoringOption::MonitorEvaluationCost)
    ||| opts.contains(MonitoringOption::MonitorEvaluationAccuracy)
}

/// The configuration error a training run reports, if any: a learning rate
/// never set to a positive value is reported first, then a mini-batch size of
/// zero or beyond the training set, then a missing evaluation set that
/// enabled monitoring would need, then a sample of the wrong width. With a
/// positive learning rate and none of the rest, training is owed.
pub open spec fn spec_config_error(
    eta_positive: bool,
    mini_batch_size: usize,
    train_len: int,
    needs_eval_data: bool,
    has_eval_data: bool,
    shapes_ok: bool,
) -> Option<ConfigError> {
    if !eta_positive {
        Some(ConfigError::EtaNotPositive)
    } else if mini_batch_size == 0 || mini_batch_size > train_len {
        Some(ConfigError::BadMiniBatchSize)
    } else if needs_eval_data && !has_eval_data {
        Some(ConfigError::MissingEvaluationData)
    } else if !shapes_ok {
        Some(ConfigError::ShapeMismatch)
    } else {
        None
    }
}

/// How a training run's result reflects a configuration check: the error
/// found is returned as it stands, and a clean check yields one statistics
/// record per epoch.
pub open spec fn sgd_outcome<S>(
    r: &Result<Vec<Stats<S>>, ConfigError>,
    check: Option<ConfigError>,
    epochs: u16,
) -> bool {
    match check {
        Some(e) => *r == Err::<Vec<Stats<S>>, ConfigError>(e),
        None => r matches Ok(stats) && stats@.len() == epochs,
    }
}

/// A vector of `n` zero scalars.
fn zero_vec<S: Scalar>(n: usize) -> (r: Vec<S>)
    ensures
        r@.len() == n,
{
    let mut r: Vec<S> = Vec::new();
    let mut i: usize = 0;
    while i < n
        invariant
            i <= n,
            r@.len() == i,
        decreases n - i,
    {
        r.push(S::zero());
        i = i + 1;
    }
    r
}

/// The coordinate-wise sum of two gradient stacks of bias shape.
fn add_bias_grads<S: Scalar>(acc: Vec<Vec<S>>, d: &Vec<Vec<S>>) -> (r: Vec<Vec<S>>)
    requires
        acc@.len() == d@.len(),
        forall|l: int| 0 <= l < acc@.len() ==> #[trigger] acc@[l]@.len() == d@[l]@.len(),
    ensures
        r@.len() == acc@.len(),
        forall|l: int| 0 <= l < r@.len() ==> #[trigger] r@[l]@.len() == acc@[l]@.len(),
{
    let mut r: Vec<Vec<S>> = Vec::new();
    let mut l: usize = 0;
    while l < acc.len()
        invariant
            l <= acc@.len(),
            acc@.len() == d@.len(),
            r@.len() == l,
            forall|k: int| 0 <= k < acc@.len() ==> #[trigger] acc@[k]@.len() == d@[k]@.len(),
            forall|k: int| 0 <= k < r@.len() ==> #[trigger] r@[k]@.len() == acc@[k]@.len(),
        decreases acc@.len() - l,
    {
        let width = acc[l].len();
        let mut v: Vec<S> = Vec::new();
        let mut i: usize = 0;
        while i < width
            invariant
                i <= width,
                v@.len() == i,
                l < acc@.len(),
                acc@.len() == d@.len(),
                width == acc@[l as int]@.len(),
                d@[l as int]@.len() == width,
            decreases width - i,
        {
            v.push(acc[l][i].plus(d[l][i]));
            i = i + 1;
        }
        r.push(v);
        l = l + 1;
    }
    r
}

/// The coordinate-wise sum of two gradient stacks of weight shape.
fn add_weight_grads<S: Scalar>(acc: Vec<Vec<Vec<S>>>, d: &Vec<Vec<Vec<S>>>) -> (r: Vec<
    Vec<Vec<S>>,
>)
    requires
        acc@.len() == d@.len(),
        forall|l: int| 0 <= l < acc@.len() ==> #[trigger] acc@[l]@.len() == d@[l]@.len(),
        forall|l: int, p: int|
            0 <= l < acc@.len() && 0 <= p < acc@[l]@.len() ==> #[trigger] acc@[l]@[p]@.len()
                == d@[l]@[p]@.len(),
    ensures
        r@.len() == acc@.len(),
        forall|l: int| 0 <= l < r@.len() ==> #[trigger] r@[l]@.len() == acc@[l]@.len(),
        forall|l: int, p: int|
            0 <= l < r@.len() && 0 <= p < r@[l]@.len() ==> #[trigger] r@[l]@[p]@.len()
                == acc@[l]@[p]@.len(),
{
    let mut r: Vec<Vec<Vec<S>>> = Vec::new();
    let mut l: usize = 0;
    while l < acc.len()
        invariant
            l <= acc@.len(),
            acc@.len() == d@.len(),
            r@.len() == l,
            forall|k: int| 0 <= k < acc@.len() ==> #[trigger] acc@[k]@.len() == d@[k]@.len(),
            forall|k: int, p: int|
                0 <= k < acc@.len() && 0 <= p < acc@[k]@.len() ==> #[trigger] acc@[k]@[p]@.len()
                    == d@[k]@[p]@.len(),
            forall|k: int| 0 <= k < r@.len() ==> #[trigger] r@[k]@.len() == acc@[k]@.len(),
            forall|k: int, p: int|
                0 <= k < r@.len() && 0 <= p < r@[k]@.len() ==> #[trigger] r@[k]@[p]@.len()
                    == acc@[k]@[p]@.len(),
        decreases acc@.len() - l,
    {
        let rows = acc[l].len();
        let mut m: Vec<Vec<S>> = Vec::new();
        let mut p: usize = 0;
        while p < rows
            invariant
                p <= rows,
                m@.len() == p,
                l < acc@.len(),
                acc@.len() == d@.len(),
                rows == acc@[l as int]@.len(),
                d@[l as int]@.len() == rows,
                forall|q: int|
                    0 <= q < rows ==> #[trigger] acc@[l as int]@[q]@.len() == d@[l as int]@[q]@.len(),
                forall|q: int| 0 <= q < m@.len() ==> #[trigger] m@[q]@.len() == acc@[l as int]@[q]@.len(),
            decreases rows - p,
        {
            let width = acc[l][p].len();
            let mut v: Vec<S> = Vec::new();
            let mut i: usize = 0;
            while i < width
                invariant
                    i <= width,
                    v@.len() == i,
                    l < acc@.len(),
                    p < acc@[l as int]@.len(),
                    acc@.len() == d@.len(),
                    d@[l as int]@.len() == acc@[l as int]@.len(),
                    width == acc@[l as int]@[p as int]@.len(),
                    d@[l as int]@[p as int]@.len() == width,
                decreases width - i,
            {
                v.push(acc[l][p][i].plus(d[l][p][i]));
                i = i + 1;
            }
            m.push(v);
            p = p + 1;
        }
        r.push(m);
        l = l + 1;
    }
    r
}

/// The outer product of an error signal with an activation vector: one row
/// per error coordinate, one column per activation coordinate.
fn make_nabla_w<S: Scalar>(delta: &Vec<S>, a: &Vec<S>) -> (r: Vec<Vec<S>>)
    ensures
        r@.len() == delta@.len(),
        forall|p: int| 0 <= p < r@.len() ==> #[trigger] r@[p]@.len() == a@.len(),
{
    let mut r: Vec<Vec<S>> = Vec::new();
    let mut row: usize = 0;
    while row < delta.len()
        invariant
            row <= delta@.len(),
            r@.len() == row,
            forall|p: int| 0 <= p < r@.len() ==> #[trigger] r@[p]@.len() == a@.len(),
        decreases delta@.len() - row,
    {
        let mut entries: Vec<S> = Vec::new();
        let mut c: usize = 0;
        while c < a.len()
            invariant
                c <= a@.len(),
                entries@.len() == c,
                row < delta@.len(),
            decreases a@.len() - c,
        {
            entries.push(delta[row].times(a[c]));
            c = c + 1;
        }
        r.push(entries);
        row = row + 1;
    }
    r
}

impl<S: Scalar + Sigmoid, CF: CostFunction<S>> Network<S, CF> {
    /// A network over the given layer sizes, its parameters drawn from the
    /// initializer, with default hyperparameters: learning rate unset, one
    /// epoch, mini-batches of one, an L2 coefficient standing for five, no
    /// monitoring and no statistics file.
    pub fn new<I: NetworkInitializer<S>>(s: &[usize], initializer: &mut I) -> (r: Network<S, CF>)
        requires
            valid_sizes(s@),
        ensures
            r.wf(),
            r.spec_sizes() == s@,
            r.spec_eta() is None,
            r.spec_epochs() == 1,
            r.spec_mini_batch_size() == 1,
            r.spec_monitoring().len() == 0,
            r.spec_save_stats() is None,
    {
        let mut sizes: Vec<usize> = Vec::new();
        let mut i: usize = 0;
        while i < s.len()
            invariant
                i <= s@.len(),
                sizes@ == s@.subrange(0, i as int),
            decreases s@.len() - i,
        {
            sizes.push(s[i]);
            i = i + 1;
        }
        assert(sizes@ == s@);
        let (biases, weights) = initializer.init(&sizes);
        Network {
            sizes,
            biases,
            weights,
            phantom: PhantomData,
            eta: None,
            epochs: 1,
            mini_batch_size: 1,
            lambda: S::from_count(5),
            monitoring_options: Vec::new(),
            save_stats: None,
        }
    }

    /// Sets the learning rate.
    pub fn eta(self, eta: S) -> (r: Self)
        ensures
            r.params_eq(&self),
            r.spec_eta() == Some(eta),
            r.spec_epochs() == self.spec_epochs(),
            r.spec_mini_batch_size() == self.spec_mini_batch_size(),
            r.spec_lambda() == self.spec_lambda(),
            r.spec_monitoring() == self.spec_monitoring(),
            r.spec_save_stats() == self.spec_save_stats(),
    {
        Network { eta: Some(eta), ..self }
    }

    /// Sets how many epochs a training run performs.
    pub fn epochs(self, epochs: u16) -> (r: Self)
        ensures
            r.params_eq(&self),
            r.spec_epochs() == epochs,
            r.spec_eta() == self.spec_eta(),
            r.spec_mini_batch_size() == self.spec_mini_batch_size(),
            r.spec_lambda() == self.spec_lambda(),
            r.spec_monitoring() == self.spec_monitoring(),
            r.spec_save_stats() == self.spec_save_stats(),
    {
        Network { epochs, ..self }
    }

    /// Sets the mini-batch size.
    pub fn mini_batch_size(self, mini_batch_size: usize) -> (r: Self)
        ensures
            r.params_eq(&self),
            r.spec_mini_batch_size() == mini_batch_size,
            r.spec_eta() == self.spec_eta(),
            r.spec_epochs() == self.spec_epochs(),
            r.spec_lambda() == self.spec_lambda(),
            r.spec_monitoring() == self.spec_monitoring(),
            r.spec_save_stats() == self.spec_save_stats(),
    {
        Network { mini_batch_size, ..self }
    }

    /// Sets the L2 regularization coefficient.
    pub fn lambda(self, lambda: S) -> (r: Self)
        ensures
            r.params_eq(&self),
            r.spec_lambda() == lambda,
            r.spec_eta() == self.spec_eta(),
            r.spec_epochs() == self.spec_epochs(),
            r.spec_mini_batch_size() == self.spec_mini_batch_size(),
            r.spec_monitoring() == self.spec_monitoring(),
            r.spec_save_stats() == self.spec_save_stats(),
    {
        Network { lambda, ..self }
    }

    /// Replaces the monitoring options with the given ones.
    pub fn monitoring_options(self, options: &[MonitoringOption]) -> (r: Self)
        ensures
            r.params_eq(&self),
            r.spec_monitoring() == options@,
            r.spec_eta() == self.spec_eta(),
            r.spec_epochs() == self.spec_epochs(),
            r.spec_mini_batch_size() == self.spec_mini_batch_size(),
            r.spec_lambda() == self.spec_lambda(),
            r.spec_save_stats() == self.spec_save_stats(),
    {
        let mut opts: Vec<MonitoringOption> = Vec::new();
        let mut i: usize = 0;
        while i < options.len()
            invariant
                i <= options@.len(),
                opts@ == options@.subrange(0, i as int),
            decreases options@.len() - i,
        {
            opts.push(options[i]);
            i = i + 1;
        }
        assert(opts@ == options@);
        Network { monitoring_options: opts, ..self }
    }

    /// Remembers a path for the caller to write epoch statistics to.
    pub fn save_stats_to_file(self, path: &str) -> (r: Self)
        ensures
            r.params_eq(&self),
            r.spec_save_stats() == Some(path@),
            r.spec_eta() == self.spec_eta(),
            r.spec_epochs() == self.spec_epochs(),
            r.spec_mini_batch_size() == self.spec_mini_batch_size(),
            r.spec_lambda() == self.spec_lambda(),
            r.spec_monitoring() == self.spec_monitoring(),
    {
        Network { save_stats: Some(path.to_owned()), ..self }
    }

    /// The pre-activations of layer `layer + 1`: for each row, the weight
    /// row's dot product with the activations `a`, plus the row's bias.
    fn weighted_inputs(&self, a: &Vec<S>, layer: usize) -> (r: Vec<S>)
        requires
            self.wf(),
            layer < self.spec_sizes().len() - 1,
            a@.len() == self.spec_sizes()[layer as int],
        ensures
            r@.len() == self.spec_sizes()[layer as int + 1],
    {
        let w = &self.weights[layer];
        let b = &self.biases[layer];
        let rows = w.len();
        proof {
            assert(self.spec_weights()[layer as int] == deep2(w@));
            assert(self.spec_biases()[layer as int] == b@);
            assert(self.spec_biases()[layer as int].len() == self.spec_sizes()[layer as int + 1]);
            assert(self.spec_weights()[layer as int].len() == self.spec_sizes()[layer as int + 1]);
            assert forall|p: int| 0 <= p < w@.len() implies #[trigger] w@[p]@.len() == a@.len() by {
                let li = layer as int;
                assert(self.spec_weights()[li][p] == w@[p]@);
                assert(self.spec_weights()[li][p].len() == self.spec_sizes()[li]);
            }
        }
        let mut r: Vec<S> = Vec::new();
        let mut row: usize = 0;
        while row < rows
            invariant
                row <= rows,
                r@.len() == row,
                rows == w@.len(),
                b@.len() == rows,
                forall|p: int| 0 <= p < w@.len() ==> #[trigger] w@[p]@.len() == a@.len(),
        decreases rows - row,
    {
            let cols = w[row].len();
            let mut acc = S::zero();
            let mut c: usize = 0;
            while c < cols
                invariant
                    c <= cols,
                    cols == w@[row as int]@.len(),
                    row < w@.len(),
                    a@.len() == cols,
                decreases cols - c,
            {
                acc = acc.plus(w[row][c].times(a[c]));
                c = c + 1;
            }
            r.push(acc.plus(b[row]));
            row = row + 1;
        }
        r
    }

    /// Runs the forward pass retaining every pre-activation and activation,
    /// seeds the output-layer error with the cost function's `delta`, and
    /// propagates it backward through the transposed weights and the
    /// activation's derivative. Returns the per-layer bias gradients (the
    /// error signals themselves) and weight gradients (each the outer
    /// product of a layer's error with the previous layer's activations),
    /// shaped exactly like the network's biases and weights.
    pub fn backprop(&self, input: &Vec<S>, target: &Vec<S>) -> (r: (Vec<Vec<S>>, Vec<Vec<Vec<S>>>))
        requires
            self.wf(),
            input@.len() == self.spec_input_width(),
            target@.len() == self.spec_output_width(),
        ensures
            biases_shaped(deep2(r.0@), self.spec_sizes()),
            weights_shaped(deep3(r.1@), self.spec_sizes()),
    {
        let num_layers = self.sizes.len() - 1;
        let mut activations: Vec<Vec<S>> = Vec::new();
        activations.push(copy_vec(input));
        let mut zs: Vec<Vec<S>> = Vec::new();
        let mut layer: usize = 0;
        while layer < num_layers
            invariant
                self.wf(),
                layer <= num_layers,
                num_layers == self.spec_sizes().len() - 1,
                activations@.len() == layer + 1,
                zs@.len() == layer,
                forall|k: int|
                    0 <= k <= layer ==> #[trigger] activations@[k]@.len() == self.spec_sizes()[k],
                forall|k: int|
                    0 <= k < layer ==> #[trigger] zs@[k]@.len() == self.spec_sizes()[k + 1],
            decreases num_layers - layer,
        {
            let z = self.weighted_inputs(&activations[layer], layer);
            activations.push(sigmoid_all(&z));
            zs.push(z);
            layer = layer + 1;
        }
        let delta = CF::delta(&activations[num_layers], target, &zs[num_layers - 1]);
        let mut deltas: Vec<Vec<S>> = Vec::new();
        let mut nabla_w: Vec<Vec<Vec<S>>> = Vec::new();
        nabla_w.push(make_nabla_w(&delta, &activations[num_layers - 1]));
        deltas.push(delta);
        let mut l: usize = num_layers - 1;
        while l > 0
            invariant
                self.wf(),
                l <= num_layers - 1,
                num_layers == self.spec_sizes().len() - 1,
                activations@.len() == num_layers + 1,
                zs@.len() == num_layers,
                forall|k: int|
                    0 <= k <= num_layers ==> #[trigger] activations@[k]@.len()
                        == self.spec_sizes()[k],
                forall|k: int|
                    0 <= k < num_layers ==> #[trigger] zs@[k]@.len() == self.spec_sizes()[k + 1],
                deltas@.len() == num_layers - l,
                nabla_w@.len() == num_layers - l,
                forall|k: int|
                    0 <= k < deltas@.len() ==> #[trigger] deltas@[k]@.len() == self.spec_sizes()[l
                        + 1 + k],
                forall|k: int|
                    0 <= k < nabla_w@.len() ==> #[trigger] nabla_w@[k]@.len()
                        == self.spec_sizes()[l + 1 + k],
                forall|k: int, row: int|
                    0 <= k < nabla_w@.len() && 0 <= row < nabla_w@[k]@.len()
                        ==> #[trigger] nabla_w@[k]@[row]@.len() == self.spec_sizes()[l + k],
            decreases l,
        {
            l = l - 1;
            let sp = sigmoid_prime_all(&zs[l]);
            let width = self.sizes[l + 1];
            let head = &deltas[0];
            let wl1 = &self.weights[l + 1];
            proof {
                let li = (l + 1) as int;
                assert(self.spec_weights()[li] == deep2(wl1@));
                assert(self.spec_weights()[li].len() == self.spec_sizes()[li + 1]);
                assert forall|p: int| 0 <= p < wl1@.len() implies #[trigger] wl1@[p]@.len()
                    == width by {
                    assert(self.spec_weights()[li][p] == wl1@[p]@);
                    assert(self.spec_weights()[li][p].len() == self.spec_sizes()[li]);
                }
            }
            let mut d: Vec<S> = Vec::new();
            let mut r_i: usize = 0;
            while r_i < width
                invariant
                    r_i <= width,
                    d@.len() == r_i,
                    sp@.len() == width,
                    head@.len() == wl1@.len(),
                    forall|p: int| 0 <= p < wl1@.len() ==> #[trigger] wl1@[p]@.len() == width,
                decreases width - r_i,
            {
                let mut acc = S::zero();
                let mut k: usize = 0;
                let depth = wl1.len();
                while k < depth
                    invariant
                        k <= depth,
                        depth == wl1@.len(),
                        r_i < width,
                        head@.len() == wl1@.len(),
                        forall|p: int| 0 <= p < wl1@.len() ==> #[trigger] wl1@[p]@.len() == width,
                    decreases depth - k,
                {
                    acc = acc.plus(wl1[k][r_i].times(head[k]));
                    k = k + 1;
                }
                d.push(acc.times(sp[r_i]));
                r_i = r_i + 1;
            }
            nabla_w.insert(0, make_nabla_w(&d, &activations[l]));
            deltas.insert(0, d);
        }
        proof {
            let sizes = self.spec_sizes();
            assert forall|k: int| 0 <= k < deep2(deltas@).len() implies #[trigger] deep2(
                deltas@,
            )[k].len() == sizes[k + 1] by {
                assert(deep2(deltas@)[k] == deltas@[k]@);
            }
            assert forall|k: int| 0 <= k < deep3(nabla_w@).len() implies #[trigger] deep3(
                nabla_w@,
            )[k].len() == sizes[k + 1] by {
                assert(deep3(nabla_w@)[k] == deep2(nabla_w@[k]@));
            }
            assert forall|k: int, row: int|
                0 <= k < deep3(nabla_w@).len() && 0 <= row < deep3(nabla_w@)[k].len()
                    implies #[trigger] deep3(nabla_w@)[k][row].len() == sizes[k] by {
                assert(deep3(nabla_w@)[k] == deep2(nabla_w@[k]@));
                assert(deep2(nabla_w@[k]@)[row] == nabla_w@[k]@[row]@);
            }
        }
        (deltas, nabla_w)
    }

    /// One gradient-descent step on the samples `data[start..end]`: the
    /// per-sample backpropagation gradients are summed, then every weight is
    /// scaled by the L2 decay factor `1 - eta * lambda / train_len` and
    /// moved against the mean weight gradient, and every bias is moved
    /// against the mean bias gradient. `train_len` is the size of the whole
    /// training set, not of this batch. The layer sizes, the parameter
    /// shapes and the whole configuration are unchanged.
    pub fn update_mini_batch(
        &mut self,
        data: &Vec<(Vec<S>, Vec<S>)>,
        start: usize,
        end: usize,
        train_len: usize,
    )
        requires
            old(self).wf(),
            old(self).spec_eta() is Some,
            start < end <= data@.len(),
            train_len >= 1,
            data_shaped(data@, old(self).spec_input_width(), old(self).spec_output_width()),
        ensures
            final(self).wf(),
            final(self).spec_sizes() == old(self).spec_sizes(),
            final(self).config_eq(old(self)),
    {
        let ghost sizes = self.spec_sizes();
        let eta = self.eta.unwrap();
        let num_layers = self.sizes.len() - 1;
        proof {
            assert forall|k: int| 0 <= k < self.biases@.len() implies #[trigger] self.biases@[k]@.len()
                == sizes[k + 1] by {
                assert(self.spec_biases()[k] == self.biases@[k]@);
                assert(self.spec_biases()[k].len() == sizes[k + 1]);
            }
            assert forall|k: int| 0 <= k < self.weights@.len() implies #[trigger] self.weights@[k]@.len()
                == sizes[k + 1] by {
                assert(self.spec_weights()[k] == deep2(self.weights@[k]@));
                assert(self.spec_weights()[k].len() == sizes[k + 1]);
            }
            assert forall|k: int, p: int|
                0 <= k < self.weights@.len() && 0 <= p < self.weights@[k]@.len()
                    implies #[trigger] self.weights@[k]@[p]@.len() == sizes[k] by {
                assert(self.spec_weights()[k] == deep2(self.weights@[k]@));
                assert(self.spec_weights()[k][p] == self.weights@[k]@[p]@);
                assert(self.spec_weights()[k][p].len() == sizes[k]);
            }
        }
        let mut nb: Vec<Vec<S>> = Vec::new();
        let mut l: usize = 0;
        while l < num_layers
            invariant
                l <= num_layers,
                num_layers == self.biases@.len(),
                nb@.len() == l,
                forall|k: int|
                    0 <= k < self.biases@.len() ==> #[trigger] self.biases@[k]@.len() == sizes[k
                        + 1],
                forall|k: int| 0 <= k < nb@.len() ==> #[trigger] nb@[k]@.len() == sizes[k + 1],
            decreases num_layers - l,
        {
            nb.push(zero_vec(self.biases[l].len()));
            l = l + 1;
        }
        let mut nw: Vec<Vec<Vec<S>>> = Vec::new();
        let mut l: usize = 0;
        while l < num_layers
            invariant
                l <= num_layers,
                num_layers == self.weights@.len(),
                nw@.len() == l,
                forall|k: int|
                    0 <= k < self.weights@.len() ==> #[trigger] self.weights@[k]@.len() == sizes[k
                        + 1],
                forall|k: int, p: int|
                    0 <= k < self.weights@.len() && 0 <= p < self.weights@[k]@.len()
                        ==> #[trigger] self.weights@[k]@[p]@.len() == sizes[k],
                forall|k: int| 0 <= k < nw@.len() ==> #[trigger] nw@[k]@.len() == sizes[k + 1],
                forall|k: int, p: int|
                    0 <= k < nw@.len() && 0 <= p < nw@[k]@.len() ==> #[trigger] nw@[k]@[p]@.len()
                        == sizes[k],
            decreases num_layers - l,
        {
            let rows = self.weights[l].len();
            let mut m: Vec<Vec<S>> = Vec::new();
            let mut p: usize = 0;
            while p < rows
                invariant
                    p <= rows,
                    m@.len() == p,
                    l < self.weights@.len(),
                    rows == self.weights@[l as int]@.len(),
                    forall|q: int|
                        0 <= q < rows ==> #[trigger] self.weights@[l as int]@[q]@.len() == sizes[
                            l as int],
                    forall|q: int|
                        0 <= q < m@.len() ==> #[trigger] m@[q]@.len() == sizes[l as int],
                decreases rows - p,
            {
                m.push(zero_vec(self.weights[l][p].len()));
                p = p + 1;
            }
            nw.push(m);
            l = l + 1;
        }
        let mut i: usize = start;
        while i < end
            invariant
                start <= i <= end <= data@.len(),
                self.wf(),
                self == old(self),
                sizes == self.spec_sizes(),
                num_layers == sizes.len() - 1,
                data_shaped(data@, self.spec_input_width(), self.spec_output_width()),
                nb@.len() == num_layers,
                forall|k: int| 0 <= k < nb@.len() ==> #[trigger] nb@[k]@.len() == sizes[k + 1],
                nw@.len() == num_layers,
                forall|k: int| 0 <= k < nw@.len() ==> #[trigger] nw@[k]@.len() == sizes[k + 1],
                forall|k: int, p: int|
                    0 <= k < nw@.len() && 0 <= p < nw@[k]@.len() ==> #[trigger] nw@[k]@[p]@.len()
                        == sizes[k],
            decreases end - i,
        {
            assert(sample_shaped(data@[i as int], self.spec_input_width(), self.spec_output_width()));
            let sample = &data[i];
            let (dnb, dnw) = self.backprop(&sample.0, &sample.1);
            proof {
                assert forall|k: int| 0 <= k < dnb@.len() implies #[trigger] dnb@[k]@.len()
                    == sizes[k + 1] by {
                    assert(deep2(dnb@)[k] == dnb@[k]@);
                    assert(deep2(dnb@)[k].len() == sizes[k + 1]);
                }
                assert forall|k: int| 0 <= k < dnw@.len() implies #[trigger] dnw@[k]@.len()
                    == sizes[k + 1] by {
                    assert(deep3(dnw@)[k] == deep2(dnw@[k]@));
                    assert(deep3(dnw@)[k].len() == sizes[k + 1]);
                }
                assert forall|k: int, p: int|
                    0 <= k < dnw@.len() && 0 <= p < dnw@[k]@.len()
                        implies #[trigger] dnw@[k]@[p]@.len() == sizes[k] by {
                    assert(deep3(dnw@)[k] == deep2(dnw@[k]@));
                    assert(deep2(dnw@[k]@)[p] == dnw@[k]@[p]@);
                    assert(deep3(dnw@)[k][p].len() == sizes[k]);
                }
            }
            nb = add_bias_grads(nb, &dnb);
            nw = add_weight_grads(nw, &dnw);
            i = i + 1;
        }
        let k_rate = eta.over(S::from_count(end - start));
        let decay = S::one().minus(eta.times(self.lambda).over(S::from_count(train_len)));
        let mut new_weights: Vec<Vec<Vec<S>>> = Vec::new();
        let mut l: usize = 0;
        while l < num_layers
            invariant
                l <= num_layers,
                num_layers == self.weights@.len(),
                nw@.len() == num_layers,
                new_weights@.len() == l,
                forall|k: int|
                    0 <= k < self.weights@.len() ==> #[trigger] self.weights@[k]@.len() == sizes[k
                        + 1],
                forall|k: int, p: int|
                    0 <= k < self.weights@.len() && 0 <= p < self.weights@[k]@.len()
                        ==> #[trigger] self.weights@[k]@[p]@.len() == sizes[k],
                forall|k: int| 0 <= k < nw@.len() ==> #[trigger] nw@[k]@.len() == sizes[k + 1],
                forall|k: int, p: int|
                    0 <= k < nw@.len() && 0 <= p < nw@[k]@.len() ==> #[trigger] nw@[k]@[p]@.len()
                        == sizes[k],
                forall|k: int|
                    0 <= k < new_weights@.len() ==> #[trigger] new_weights@[k]@.len() == sizes[k
                        + 1],
                forall|k: int, p: int|
                    0 <= k < new_weights@.len() && 0 <= p < new_weights@[k]@.len()
                        ==> #[trigger] new_weights@[k]@[p]@.len() == sizes[k],
            decreases num_layers - l,
        {
            let rows = self.weights[l].len();
            let mut m: Vec<Vec<S>> = Vec::new();
            let mut p: usize = 0;
            while p < rows
                invariant
                    p <= rows,
                    m@.len() == p,
                    l < self.weights@.len(),
                    l < nw@.len(),
                    rows == self.weights@[l as int]@.len(),
                    nw@[l as int]@.len() == rows,
                    forall|q: int|
                        0 <= q < rows ==> #[trigger] self.weights@[l as int]@[q]@.len() == sizes[
                            l as int],
                    forall|q: int|
                        0 <= q < rows ==> #[trigger] nw@[l as int]@[q]@.len() == sizes[l as int],
                    forall|q: int|
                        0 <= q < m@.len() ==> #[trigger] m@[q]@.len() == sizes[l as int],
                decreases rows - p,
            {
                let width = self.weights[l][p].len();
                let mut v: Vec<S> = Vec::new();
                let mut c: usize = 0;
                while c < width
                    invariant
                        c <= width,
                        v@.len() == c,
                        l < self.weights@.len(),
                        l < nw@.len(),
                        p < self.weights@[l as int]@.len(),
                        p < nw@[l as int]@.len(),
                        width == self.weights@[l as int]@[p as int]@.len(),
                        nw@[l as int]@[p as int]@.len() == width,
                    decreases width - c,
                {
                    let updated = decay.times(self.weights[l][p][c]).minus(
                        k_rate.times(nw[l][p][c]),
                    );
                    v.push(updated);
                    c = c + 1;
                }
                m.push(v);
                p = p + 1;
            }
            new_weights.push(m);
            l = l + 1;
        }
        let mut new_biases: Vec<Vec<S>> = Vec::new();
        let mut l: usize = 0;
        while l < num_layers
            invariant
                l <= num_layers,
                num_layers == self.biases@.len(),
                nb@.len() == num_layers,
                new_biases@.len() == l,
                forall|k: int|
                    0 <= k < self.biases@.len() ==> #[trigger] self.biases@[k]@.len() == sizes[k
                        + 1],
                forall|k: int| 0 <= k < nb@.len() ==> #[trigger] nb@[k]@.len() == sizes[k + 1],
                forall|k: int|
                    0 <= k < new_biases@.len() ==> #[trigger] new_biases@[k]@.len() == sizes[k + 1],
            decreases num_layers - l,
        {
            let width = self.biases[l].len();
            let mut v: Vec<S> = Vec::new();
            let mut i2: usize = 0;
            while i2 < width
                invariant
                    i2 <= width,
                    v@.len() == i2,
                    l < self.biases@.len(),
                    l < nb@.len(),
                    width == self.biases@[l as int]@.len(),
                    nb@[l as int]@.len() == width,
                decreases width - i2,
            {
                v.push(self.biases[l][i2].minus(k_rate.times(nb[l][i2])));
                i2 = i2 + 1;
            }
            new_biases.push(v);
            l = l + 1;
        }
        self.weights = new_weights;
        self.biases = new_biases;
        proof {
            assert forall|k: int| 0 <= k < self.spec_biases().len()
                implies #[trigger] self.spec_biases()[k].len() == sizes[k + 1] by {
                assert(self.spec_biases()[k] == self.biases@[k]@);
            }
            assert forall|k: int| 0 <= k < self.spec_weights().len()
                implies #[trigger] self.spec_weights()[k].len() == sizes[k + 1] by {
                assert(self.spec_weights()[k] == deep2(self.weights@[k]@));
            }
            assert forall|k: int, p: int|
                0 <= k < self.spec_weights().len() && 0 <= p < self.spec_weights()[k].len()
                    implies #[trigger] self.spec_weights()[k][p].len() == sizes[k] by {
                assert(self.spec_weights()[k] == deep2(self.weights@[k]@));
                assert(self.spec_weights()[k][p] == self.weights@[k]@[p]@);
            }
        }
    }

    /// The network's output for the given input: each layer's activations
    /// are the sigmoid of that layer's pre-activations, starting from the
    /// input. The result is as wide as the output layer.
    pub fn feedforward(&self, input: &Vec<S>) -> (r: Vec<S>)
        requires
            self.wf(),
            input@.len() == self.spec_input_width(),
        ensures
            r@.len() == self.spec_output_width(),
    {
        let mut a = copy_vec(input);
        let mut layer: usize = 0;
        let num_layers = self.sizes.len() - 1;
        while layer < num_layers
            invariant
                layer <= num_layers,
                num_layers == self.spec_sizes().len() - 1,
                self.wf(),
                a@.len() == self.spec_sizes()[layer as int],
            decreases num_layers - layer,
        {
            let z = self.weighted_inputs(&a, layer);
            a = sigmoid_all(&z);
            layer = layer + 1;
        }
        a
    }

    /// Every sample of the training set — and of the evaluation set, if one
    /// is given — has the network's input and output widths.
    pub open spec fn spec_shapes_ok(
        &self,
        train: Seq<(Vec<S>, Vec<S>)>,
        eval: Option<&Vec<(Vec<S>, Vec<S>)>>,
    ) -> bool {
        &&& data_shaped(train, self.spec_input_width(), self.spec_output_width())
        &&& match eval {
            Some(e) => data_shaped(e@, self.spec_input_width(), self.spec_output_width()),
            None => true,
        }
    }

    /// How many samples the network classifies correctly: those whose output
    /// takes its maximum at the same index as the target. At most the size of
    /// the dataset; when every prediction matches, exactly its size (see
    /// `lemma_all_matching_counted`).
    pub fn accuracy(&self, data: &Vec<(Vec<S>, Vec<S>)>) -> (r: usize)
        requires
            self.wf(),
            data_shaped(data@, self.spec_input_width(), self.spec_output_width()),
        ensures
            r <= data@.len(),
    {
        let mut pairs: Vec<(usize, usize)> = Vec::new();
        let mut i: usize = 0;
        while i < data.len()
            invariant
                i <= data@.len(),
                pairs@.len() == i,
                self.wf(),
                data_shaped(data@, self.spec_input_width(), self.spec_output_width()),
            decreases data@.len() - i,
        {
            assert(sample_shaped(data@[i as int], self.spec_input_width(), self.spec_output_width()));
            let sample = &data[i];
            let out = self.feedforward(&sample.0);
            pairs.push((argmax(&out), argmax(&sample.1)));
            i = i + 1;
        }
        count_matching(&pairs)
    }

    /// The mean per-sample cost over the dataset plus the L2 penalty
    /// `0.5 * (lambda / n) * sum(||W||^2)`.
    pub fn total_cost(&self, data: &Vec<(Vec<S>, Vec<S>)>) -> (r: S)
        requires
            self.wf(),
            data_shaped(data@, self.spec_input_width(), self.spec_output_width()),
    {
        let n = S::from_count(data.len());
        let mut cost = S::zero();
        let mut i: usize = 0;
        while i < data.len()
            invariant
                i <= data@.len(),
                self.wf(),
                data_shaped(data@, self.spec_input_width(), self.spec_output_width()),
            decreases data@.len() - i,
        {
            assert(sample_shaped(data@[i as int], self.spec_input_width(), self.spec_output_width()));
            let sample = &data[i];
            let out = self.feedforward(&sample.0);
            cost = cost.plus(CF::raw(&out, &sample.1).over(n));
            i = i + 1;
        }
        let mut sum_sq = S::zero();
        let mut l: usize = 0;
        while l < self.weights.len()
            invariant
                l <= self.weights@.len(),
            decreases self.weights@.len() - l,
        {
            let mut layer_sq = S::zero();
            let rows = self.weights[l].len();
            let mut p: usize = 0;
            while p < rows
                invariant
                    p <= rows,
                    l < self.weights@.len(),
                    rows == self.weights@[l as int]@.len(),
                decreases rows - p,
            {
                let width = self.weights[l][p].len();
                let mut c: usize = 0;
                while c < width
                    invariant
                        c <= width,
                        l < self.weights@.len(),
                        p < self.weights@[l as int]@.len(),
                        width == self.weights@[l as int]@[p as int]@.len(),
                    decreases width - c,
                {
                    let w = self.weights[l][p][c];
                    layer_sq = layer_sq.plus(w.times(w));
                    c = c + 1;
                }
                p = p + 1;
            }
            sum_sq = sum_sq.plus(layer_sq);
            l = l + 1;
        }
        cost.plus(S::one().over(S::from_count(2)).times(self.lambda.over(n)).times(sum_sq))
    }

    /// The post-epoch figures: each enabled monitoring option contributes its
    /// field, and no other field is filled. Accuracy counts never exceed
    /// their dataset.
    pub fn monitor(
        &self,
        training_data: &Vec<(Vec<S>, Vec<S>)>,
        evaluation_data: Option<&Vec<(Vec<S>, Vec<S>)>>,
    ) -> (r: Stats<S>)
        requires
            self.wf(),
            self.spec_shapes_ok(training_data@, evaluation_data),
            needs_eval(self.spec_monitoring()) ==> evaluation_data is Some,
        ensures
            r.epoch is None,
            r.training_cost is Some <==> self.spec_monitoring().contains(
                MonitoringOption::MonitorTrainingCost,
            ),
            r.training_accuracy is Some <==> self.spec_monitoring().contains(
                MonitoringOption::MonitorTrainingAccuracy,
            ),
            r.evaluation_cost is Some <==> self.spec_monitoring().contains(
                MonitoringOption::MonitorEvaluationCost,
            ),
            r.evaluation_accuracy is Some <==> self.spec_monitoring().contains(
                MonitoringOption::MonitorEvaluationAccuracy,
            ),
            r.training_accuracy matches Some(c) ==> c <= training_data@.len(),
            evaluation_data matches Some(e) ==> (r.evaluation_accuracy matches Some(c) ==> c
                <= e@.len()),
    {
        let mut stats = Stats {
            epoch: None,
            evaluation_cost: None,
            evaluation_accuracy: None,
            training_cost: None,
            training_accuracy: None,
        };
        if has_option(&self.monitoring_options, MonitoringOption::MonitorTrainingCost) {
            stats.training_cost = Some(self.total_cost(training_data));
        }
        if has_option(&self.monitoring_options, MonitoringOption::MonitorTrainingAccuracy) {
            stats.training_accuracy = Some(self.accuracy(training_data));
        }
        if has_option(&self.monitoring_options, MonitoringOption::MonitorEvaluationCost) {
            let eval = evaluation_data.unwrap();
            stats.evaluation_cost = Some(self.total_cost(eval));
        }
        if has_option(&self.monitoring_options, MonitoringOption::MonitorEvaluationAccuracy) {
            let eval = evaluation_data.unwrap();
            stats.evaluation_accuracy = Some(self.accuracy(eval));
        }
        stats
    }

    /// Trains for the configured number of epochs: each epoch shuffles the
    /// training data, walks it in consecutive mini-batches (the last possibly
    /// short) applying `update_mini_batch`, and records the enabled
    /// monitoring figures. Refused with the configuration error that
    /// `spec_config_error` names — whether the learning rate counted as
    /// positive is up to the scalar type, everything else is exact — and on
    /// refusal the network is untouched. On success there is one statistics
    /// record per epoch, numbered from zero, each filled exactly as the
    /// monitoring options demand; the layer sizes, the parameter shapes and
    /// the configuration always survive.
    pub fn sgd(
        &mut self,
        training_data: Vec<(Vec<S>, Vec<S>)>,
        evaluation_data: Option<&Vec<(Vec<S>, Vec<S>)>>,
    ) -> (r: Result<Vec<Stats<S>>, ConfigError>)
        requires
            old(self).wf(),
        ensures
            final(self).wf(),
            final(self).spec_sizes() == old(self).spec_sizes(),
            final(self).config_eq(old(self)),
            old(self).spec_eta() is None ==> r == Err::<Vec<Stats<S>>, ConfigError>(
                ConfigError::EtaNotPositive,
            ),
            r is Err ==> *final(self) == *old(self),
            exists|eta_positive: bool|
                sgd_outcome(
                    &r,
                    #[trigger] spec_config_error(
                        eta_positive,
                        old(self).spec_mini_batch_size(),
                        training_data@.len() as int,
                        needs_eval(old(self).spec_monitoring()),
                        evaluation_data is Some,
                        old(self).spec_shapes_ok(training_data@, evaluation_data),
                    ),
                    old(self).spec_epochs(),
                ),
            r matches Ok(stats) ==> forall|i: int|
                0 <= i < stats@.len() ==> (#[trigger] stats@[i]).epoch == Some(i as u16) && (
                stats@[i].training_cost is Some <==> old(self).spec_monitoring().contains(
                    MonitoringOption::MonitorTrainingCost,
                )) && (stats@[i].training_accuracy is Some <==> old(
                    self,
                ).spec_monitoring().contains(MonitoringOption::MonitorTrainingAccuracy)) && (
                stats@[i].evaluation_cost is Some <==> old(self).spec_monitoring().contains(
                    MonitoringOption::MonitorEvaluationCost,
                )) && (stats@[i].evaluation_accuracy is Some <==> old(
                    self,
                ).spec_monitoring().contains(MonitoringOption::MonitorEvaluationAccuracy)),
    {
        let ghost check_n = training_data@.len() as int;
        let ghost check_needs = needs_eval(old(self).spec_monitoring());
        let ghost check_has = evaluation_data is Some;
        let ghost check_shapes = old(self).spec_shapes_ok(training_data@, evaluation_data);
        let eta_positive = match self.eta {
            Some(e) => e.is_positive(),
            None => false,
        };
        if !eta_positive {
            let r = Err::<Vec<Stats<S>>, ConfigError>(ConfigError::EtaNotPositive);
            proof {
                assert(sgd_outcome(
                    &r,
                    spec_config_error(
                        false,
                        old(self).spec_mini_batch_size(),
                        check_n,
                        check_needs,
                        check_has,
                        check_shapes,
                    ),
                    old(self).spec_epochs(),
                ));
            }
            return r;
        }
        let n = training_data.len();
        if self.mini_batch_size == 0 || self.mini_batch_size > n {
            let r = Err::<Vec<Stats<S>>, ConfigError>(ConfigError::BadMiniBatchSize);
            proof {
                assert(sgd_outcome(
                    &r,
                    spec_config_error(
                        true,
                        old(self).spec_mini_batch_size(),
                        check_n,
                        check_needs,
                        check_has,
                        check_shapes,
                    ),
                    old(self).spec_epochs(),
                ));
            }
            return r;
        }
        let needs = has_option(&self.monitoring_options, MonitoringOption::MonitorEvaluationCost)
            || has_option(&self.monitoring_options, MonitoringOption::MonitorEvaluationAccuracy);
        if needs && evaluation_data.is_none() {
            let r = Err::<Vec<Stats<S>>, ConfigError>(ConfigError::MissingEvaluationData);
            proof {
                assert(sgd_outcome(
                    &r,
                    spec_config_error(
                        true,
                        old(self).spec_mini_batch_size(),
                        check_n,
                        check_needs,
                        check_has,
                        check_shapes,
                    ),
                    old(self).spec_epochs(),
                ));
            }
            return r;
        }
        let in_width = self.sizes[0];
        let out_width = self.sizes[self.sizes.len() - 1];
        let mut shapes = check_data_shapes(&training_data, in_width, out_width);
        match evaluation_data {
            Some(e) => {
                if !check_data_shapes(e, in_width, out_width) {
                    shapes = false;
                }
            },
            None => {},
        }
        if !shapes {
            let r = Err::<Vec<Stats<S>>, ConfigError>(ConfigError::ShapeMismatch);
            proof {
                assert(sgd_outcome(
                    &r,
                    spec_config_error(
                        true,
                        old(self).spec_mini_batch_size(),
                        check_n,
                        check_needs,
                        check_has,
                        check_shapes,
                    ),
                    old(self).spec_epochs(),
                ));
            }
            return r;
        }
        let mut training_data = training_data;
        let mut all_stats: Vec<Stats<S>> = Vec::new();
        let mut epoch: u16 = 0;
        let num_epochs = self.epochs;
        while epoch < num_epochs
            invariant
                self.wf(),
                self.spec_sizes() == old(self).spec_sizes(),
                self.config_eq(old(self)),
                self.spec_eta() is Some,
                num_epochs == old(self).spec_epochs(),
                1 <= old(self).spec_mini_batch_size() <= n,
                training_data@.len() == n,
                data_shaped(training_data@, self.spec_input_width(), self.spec_output_width()),
                needs_eval(self.spec_monitoring()) ==> evaluation_data is Some,
                evaluation_data matches Some(e) ==> data_shaped(
                    e@,
                    self.spec_input_width(),
                    self.spec_output_width(),
                ),
                epoch <= num_epochs,
                all_stats@.len() == epoch,
                forall|i: int|
                    0 <= i < all_stats@.len() ==> (#[trigger] all_stats@[i]).epoch == Some(
                        i as u16,
                    ) && (all_stats@[i].training_cost is Some <==> old(
                        self,
                    ).spec_monitoring().contains(MonitoringOption::MonitorTrainingCost)) && (
                    all_stats@[i].training_accuracy is Some <==> old(
                        self,
                    ).spec_monitoring().contains(MonitoringOption::MonitorTrainingAccuracy)) && (
                    all_stats@[i].evaluation_cost is Some <==> old(
                        self,
                    ).spec_monitoring().contains(MonitoringOption::MonitorEvaluationCost)) && (
                    all_stats@[i].evaluation_accuracy is Some <==> old(
                        self,
                    ).spec_monitoring().contains(MonitoringOption::MonitorEvaluationAccuracy)),
            decreases num_epochs - epoch,
        {
            let ghost before_shuffle = training_data@;
            shuffle(&mut training_data);
            proof {
                lemma_same_multiset_same_shapes(
                    before_shuffle,
                    training_data@,
                    self.spec_input_width(),
                    self.spec_output_width(),
                );
            }
            let mut start: usize = 0;
            while start < n
                invariant
                    self.wf(),
                    self.spec_sizes() == old(self).spec_sizes(),
                    self.config_eq(old(self)),
                    self.spec_eta() is Some,
                    1 <= old(self).spec_mini_batch_size() <= n,
                    training_data@.len() == n,
                    data_shaped(training_data@, self.spec_input_width(), self.spec_output_width()),
                    start <= n,
                decreases n - start,
            {
                let end = if n - start > self.mini_batch_size {
                    start + self.mini_batch_size
                } else {
                    n
                };
                self.update_mini_batch(&training_data, start, end, n);
                start = end;
            }
            let mut stats = self.monitor(&training_data, evaluation_data);
            stats.epoch = Some(epoch);
            all_stats.push(stats);
            epoch = epoch + 1;
        }
        let r = Ok::<Vec<Stats<S>>, ConfigError>(all_stats);
        proof {
            assert(sgd_outcome(
                &r,
                spec_config_error(
                    true,
                    old(self).spec_mini_batch_size(),
                    check_n,
                    check_needs,
                    check_has,
                    check_shapes,
                ),
                old(self).spec_epochs(),
            ));
        }
        r
    }
}

} // verus!
