use sgd_network::cost_function::{CostFunction, CrossEntropyCost, QuadraticCost};
use sgd_network::dataset::{make_data, one_hot, window_samples};
use sgd_network::network_initializer::{Basic, FixedSource, Scaled};
use sgd_network::persistence::LoadError;
use sgd_network::scalar::Scalar;
use sgd_network::sgd_network::{ConfigError, MonitoringOption, Network};
use sgd_network::sigmoid::Sigmoid;

#[derive(Clone, Copy, Debug, PartialEq)]
struct R(f32);

impl Scalar for R {
    fn zero() -> R {
        R(0.0)
    }
    fn one() -> R {
        R(1.0)
    }
    fn from_count(n: usize) -> R {
        R(n as f32)
    }
    fn plus(self, other: R) -> R {
        R(self.0 + other.0)
    }
    fn minus(self, other: R) -> R {
        R(self.0 - other.0)
    }
    fn times(self, other: R) -> R {
        R(self.0 * other.0)
    }
    fn over(self, other: R) -> R {
        R(self.0 / other.0)
    }
    fn neg(self) -> R {
        R(-self.0)
    }
    fn ln_clamped(self) -> R {
        let x = self.0.ln();
        if x.is_infinite() {
            R(f32::MAX * x.signum())
        } else {
            R(x)
        }
    }
    fn sqrt(self) -> R {
        R(self.0.sqrt())
    }
    fn lt(self, other: R) -> bool {
        self.0 < other.0
    }
    fn is_positive(self) -> bool {
        self.0 > 0.0
    }
}

impl Sigmoid for R {
    fn sigmoid(&self) -> R {
        R(1.0 / (1.0 + std::f32::consts::E.powf(-self.0)))
    }
    fn sigmoid_prime(&self) -> R {
        self.sigmoid().times(R(1.0).minus(self.sigmoid()))
    }
}

fn rv(xs: &[f32]) -> Vec<R> {
    xs.iter().map(|&x| R(x)).collect()
}

fn fv(xs: &[R]) -> Vec<f32> {
    xs.iter().map(|x| x.0).collect()
}

/// A small deterministic pseudo-random stream in about [-1, 1].
fn pseudo_samples(count: usize, seed: u64) -> Vec<R> {
    let mut state = seed;
    let mut out = Vec::new();
    for _ in 0..count {
        state = state.wrapping_mul(6364136223846793005).wrapping_add(1442695040888963407);
        let x = ((state >> 33) as f32 / (1u64 << 31) as f32) - 1.0;
        out.push(R(x));
    }
    out
}

fn zero_net(sizes: &[usize]) -> Network<R, CrossEntropyCost> {
    let mut init = Basic { source: FixedSource::new(Vec::new()) };
    Network::new(sizes, &mut init)
}

fn seeded_net(sizes: &[usize], seed: u64) -> Network<R, CrossEntropyCost> {
    let mut init = Basic { source: FixedSource::new(pseudo_samples(512, seed)) };
    Network::new(sizes, &mut init)
}

#[test]
fn test_cross_entropy_raw() {
    let a = rv(&[0.01, 0.5, 0.9, 0.9]);
    let y = rv(&[0.0, 0.0, 0.0, 1.0]);
    let cost = <CrossEntropyCost as CostFunction<R>>::raw(&a, &y);
    assert_eq!(cost.0, 0.01005 + 0.693147 + 2.302585 + 0.105361);
}

#[test]
fn test_quadratic_raw() {
    let a = rv(&[0.01, 0.5, 0.9, 0.9]);
    let y = rv(&[0.0, 0.0, 0.0, 1.0]);
    let cost = <QuadraticCost as CostFunction<R>>::raw(&a, &y);
    assert_eq!(cost.0, 0.53505);
}

#[test]
fn test_cross_entropy_raw_nan() {
    let a = rv(&[0.0, 1.0]);
    let y = rv(&[0.0, 1.0]);
    let cost = <CrossEntropyCost as CostFunction<R>>::raw(&a, &y);
    assert!(cost.0 == 0.0);
}

#[test]
fn test_cross_entropy_delta() {
    let a = rv(&[0.2, 0.7]);
    let y = rv(&[0.0, 1.0]);
    let z = rv(&[0.1, 0.1]);
    let d = <CrossEntropyCost as CostFunction<R>>::delta(&a, &y, &z);
    assert_eq!(fv(&d), vec![0.2, 0.7 - 1.0]);
}

#[test]
fn test_quadratic_delta_uses_sigmoid_prime() {
    let a = rv(&[0.2]);
    let y = rv(&[0.0]);
    let z = rv(&[0.5]);
    let d = <QuadraticCost as CostFunction<R>>::delta(&a, &y, &z);
    let expected = 0.2 * R(0.5).sigmoid_prime().0;
    assert_eq!(d[0].0, expected);
}

#[test]
fn test_sigmoid_values() {
    assert_eq!(R(0.0).sigmoid().0, 0.5);
    assert!((R(1.0).sigmoid().0 - 0.7310586).abs() < 1e-6);
    assert!((R(-1.0).sigmoid().0 - 0.26894143).abs() < 1e-6);
}

#[test]
fn test_network_shapes() {
    let net = seeded_net(&[3, 4, 2], 9);
    let repr = net.to_repr();
    assert_eq!(repr.sizes, vec![3, 4, 2]);
    assert_eq!(repr.biases.len(), 2);
    assert_eq!(repr.biases[0].len(), 4);
    assert_eq!(repr.biases[1].len(), 2);
    assert_eq!(repr.weights.len(), 2);
    assert_eq!(repr.weights[0].len(), 4 * 3);
    assert_eq!(repr.weights[1].len(), 2 * 4);
}

#[test]
fn test_basic_initializer_draw_order() {
    let mut init = Basic { source: FixedSource::new(rv(&[1.0, 2.0, 3.0, 4.0, 5.0, 6.0])) };
    let net: Network<R, CrossEntropyCost> = Network::new(&[2, 2], &mut init);
    let repr = net.to_repr();
    // Biases are drawn first, then the weight rows in row-major order.
    assert_eq!(fv(&repr.biases[0]), vec![1.0, 2.0]);
    assert_eq!(fv(&repr.weights[0]), vec![3.0, 4.0, 5.0, 6.0]);
}

#[test]
fn test_scaled_initializer_divides_by_sqrt_fan_in() {
    let mut init = Scaled { source: FixedSource::new(rv(&[1.0, 2.0, 3.0, 4.0, 5.0, 6.0])) };
    let net: Network<R, CrossEntropyCost> = Network::new(&[2, 2], &mut init);
    let repr = net.to_repr();
    // Biases are untouched; each weight draw is divided by sqrt(fan-in) = sqrt(2).
    assert_eq!(fv(&repr.biases[0]), vec![1.0, 2.0]);
    let s = 2.0f32.sqrt();
    assert_eq!(fv(&repr.weights[0]), vec![3.0 / s, 4.0 / s, 5.0 / s, 6.0 / s]);
}

#[test]
fn test_feedforward_zero_network() {
    let net = zero_net(&[2, 3, 2]);
    let out = net.feedforward(&rv(&[0.0, 0.0]));
    assert_eq!(out.len(), 2);
    for o in &out {
        assert_eq!(o.0, 0.5);
    }
}

#[test]
fn test_feedforward_output_width() {
    let net = seeded_net(&[4, 6, 3], 11);
    let out = net.feedforward(&rv(&[0.1, 0.2, 0.3, 0.4]));
    assert_eq!(out.len(), 3);
}

#[test]
fn test_save_load_round_trip() {
    let net = seeded_net(&[3, 5, 2], 21).eta(R(0.3)).epochs(7).mini_batch_size(4).lambda(R(0.1));
    let repr = net.to_repr();
    assert_eq!(repr.eta, Some(R(0.3)));
    assert_eq!(repr.epochs, 7);
    assert_eq!(repr.mini_batch_size, 4);
    assert_eq!(repr.lambda, R(0.1));
    let loaded: Network<R, CrossEntropyCost> = Network::from_repr(&repr).unwrap();
    let input = rv(&[0.3, -0.2, 0.8]);
    assert_eq!(fv(&net.feedforward(&input)), fv(&loaded.feedforward(&input)));
}

#[test]
fn test_from_repr_invalid_sizes() {
    let net = seeded_net(&[2, 2], 3);
    let mut repr = net.to_repr();
    repr.sizes = vec![2];
    let r: Result<Network<R, CrossEntropyCost>, LoadError> = Network::from_repr(&repr);
    assert_eq!(r.unwrap_err(), LoadError::InvalidSizes);
    let mut repr2 = net.to_repr();
    repr2.sizes = vec![2, 0];
    let r2: Result<Network<R, CrossEntropyCost>, LoadError> = Network::from_repr(&repr2);
    assert_eq!(r2.unwrap_err(), LoadError::InvalidSizes);
}

#[test]
fn test_from_repr_shape_mismatch() {
    let net = seeded_net(&[2, 2], 5);
    let mut repr = net.to_repr();
    repr.weights[0].pop();
    let r: Result<Network<R, CrossEntropyCost>, LoadError> = Network::from_repr(&repr);
    assert_eq!(r.unwrap_err(), LoadError::ShapeMismatch);
    let mut repr2 = net.to_repr();
    repr2.biases[0].push(R(0.0));
    let r2: Result<Network<R, CrossEntropyCost>, LoadError> = Network::from_repr(&repr2);
    assert_eq!(r2.unwrap_err(), LoadError::ShapeMismatch);
}

/// A linearly separable two-class toy set: the class follows the larger
/// input coordinate.
fn separable_data(n: usize) -> Vec<(Vec<R>, Vec<R>)> {
    let mut data = Vec::new();
    for i in 0..n {
        let t = i as f32 / n as f32;
        if i % 2 == 0 {
            data.push((rv(&[0.9 + 0.1 * t, 0.1 * t]), rv(&[1.0, 0.0])));
        } else {
            data.push((rv(&[0.1 * t, 0.9 + 0.1 * t]), rv(&[0.0, 1.0])));
        }
    }
    data
}

#[test]
fn test_training_reduces_cost() {
    let net = seeded_net(&[2, 3, 2], 77)
        .eta(R(0.5))
        .epochs(40)
        .mini_batch_size(4)
        .lambda(R(0.0))
        .monitoring_options(&[MonitoringOption::MonitorTrainingCost]);
    let mut net = net;
    let data = separable_data(20);
    let stats = net.sgd(data, None).unwrap();
    assert_eq!(stats.len(), 40);
    let first = stats.first().unwrap().training_cost.unwrap().0;
    let last = stats.last().unwrap().training_cost.unwrap().0;
    assert!(
        last < first,
        "cost should fall over training: first {} last {}",
        first,
        last
    );
}

#[test]
fn test_update_mini_batch_plain_gradient_descent() {
    // With lambda = 0 the decay factor is exactly 1, so the update is plain
    // gradient descent: W <- W - (eta / batch) * sum of gradients.
    let eta = 0.5f32;
    let mut net = seeded_net(&[2, 3, 2], 13).eta(R(eta)).lambda(R(0.0));
    let before = net.to_repr();
    let data = separable_data(2);
    let (g0b, g0w) = net.backprop(&data[0].0, &data[0].1);
    let (g1b, g1w) = net.backprop(&data[1].0, &data[1].1);
    net.update_mini_batch(&data, 0, 2, 2);
    let after = net.to_repr();
    let k = eta / 2.0;
    for l in 0..before.weights.len() {
        let rows = g0w[l].len();
        for r in 0..rows {
            let cols = g0w[l][r].len();
            for c in 0..cols {
                let sum = 0.0 + g0w[l][r][c].0 + g1w[l][r][c].0;
                let expected = 1.0 * before.weights[l][r * cols + c].0 - k * sum;
                assert_eq!(after.weights[l][r * cols + c].0, expected);
            }
        }
    }
    for l in 0..before.biases.len() {
        for i in 0..before.biases[l].len() {
            let sum = 0.0 + g0b[l][i].0 + g1b[l][i].0;
            let expected = before.biases[l][i].0 - k * sum;
            assert_eq!(after.biases[l][i].0, expected);
        }
    }
}

#[test]
fn test_accuracy_all_match() {
    // A zero network answers [0.5, 0.5]; the first maximum is index 0, so
    // every sample whose target class is 0 counts as correct.
    let net = zero_net(&[2, 2]);
    let data = vec![
        (rv(&[0.0, 0.0]), rv(&[1.0, 0.0])),
        (rv(&[0.3, 0.1]), rv(&[1.0, 0.0])),
        (rv(&[0.9, 0.4]), rv(&[1.0, 0.0])),
    ];
    assert_eq!(net.accuracy(&data), 3);
}

#[test]
fn test_accuracy_counts_mismatches() {
    let net = zero_net(&[2, 2]);
    let data = vec![
        (rv(&[0.0, 0.0]), rv(&[1.0, 0.0])),
        (rv(&[0.0, 0.0]), rv(&[0.0, 1.0])),
    ];
    assert_eq!(net.accuracy(&data), 1);
}

#[test]
fn test_sgd_eta_unset() {
    let mut net = seeded_net(&[2, 2], 1);
    let r = net.sgd(separable_data(4), None);
    assert_eq!(r.unwrap_err(), ConfigError::EtaNotPositive);
}

#[test]
fn test_sgd_eta_not_positive() {
    let mut net = seeded_net(&[2, 2], 1).eta(R(-1.0));
    let r = net.sgd(separable_data(4), None);
    assert_eq!(r.unwrap_err(), ConfigError::EtaNotPositive);
}

#[test]
fn test_sgd_bad_mini_batch_size() {
    let mut net = seeded_net(&[2, 2], 1).eta(R(0.5)).mini_batch_size(0);
    let r = net.sgd(separable_data(4), None);
    assert_eq!(r.unwrap_err(), ConfigError::BadMiniBatchSize);
    let mut net2 = seeded_net(&[2, 2], 1).eta(R(0.5)).mini_batch_size(5);
    let r2 = net2.sgd(separable_data(4), None);
    assert_eq!(r2.unwrap_err(), ConfigError::BadMiniBatchSize);
}

#[test]
fn test_sgd_missing_evaluation_data() {
    let mut net = seeded_net(&[2, 2], 1)
        .eta(R(0.5))
        .mini_batch_size(2)
        .monitoring_options(&[MonitoringOption::MonitorEvaluationCost]);
    let r = net.sgd(separable_data(4), None);
    assert_eq!(r.unwrap_err(), ConfigError::MissingEvaluationData);
}

#[test]
fn test_sgd_shape_mismatch() {
    let mut net = seeded_net(&[2, 2], 1).eta(R(0.5)).mini_batch_size(2);
    let mut data = separable_data(4);
    data[2].0.push(R(0.0));
    let r = net.sgd(data, None);
    assert_eq!(r.unwrap_err(), ConfigError::ShapeMismatch);
}

#[test]
fn test_sgd_monitoring_fields() {
    let mut net = seeded_net(&[2, 3, 2], 5)
        .eta(R(0.5))
        .epochs(2)
        .mini_batch_size(2)
        .monitoring_options(&[
            MonitoringOption::MonitorTrainingCost,
            MonitoringOption::MonitorTrainingAccuracy,
            MonitoringOption::MonitorEvaluationCost,
            MonitoringOption::MonitorEvaluationAccuracy,
        ]);
    let train = separable_data(6);
    let eval = separable_data(4);
    let stats = net.sgd(train, Some(&eval)).unwrap();
    assert_eq!(stats.len(), 2);
    for (i, s) in stats.iter().enumerate() {
        assert_eq!(s.epoch, Some(i as u16));
        assert!(s.training_cost.is_some());
        assert!(s.training_accuracy.is_some());
        assert!(s.evaluation_cost.is_some());
        assert!(s.evaluation_accuracy.is_some());
        assert!(s.training_accuracy.unwrap() <= 6);
        assert!(s.evaluation_accuracy.unwrap() <= 4);
    }
    let mut quiet = seeded_net(&[2, 2], 5).eta(R(0.5)).mini_batch_size(2);
    let stats2 = quiet.sgd(separable_data(4), None).unwrap();
    assert_eq!(stats2.len(), 1);
    assert!(stats2[0].training_cost.is_none());
    assert!(stats2[0].training_accuracy.is_none());
    assert!(stats2[0].evaluation_cost.is_none());
    assert!(stats2[0].evaluation_accuracy.is_none());
}

#[test]
fn test_one_hot() {
    let v: Vec<R> = one_hot(7, 10);
    let expected: Vec<f32> = (0..10).map(|i| if i == 7 { 1.0 } else { 0.0 }).collect();
    assert_eq!(fv(&v), expected);
}

#[test]
fn test_make_data() {
    let pixels: Vec<u8> = vec![0, 255, 128, 1];
    let labels: Vec<u8> = vec![3, 0];
    let data: Vec<(Vec<R>, Vec<R>)> = make_data(&pixels, &labels, 2, 10);
    assert_eq!(data.len(), 2);
    assert_eq!(fv(&data[0].0), vec![0.0, 255.0]);
    assert_eq!(fv(&data[1].0), vec![128.0, 1.0]);
    assert_eq!(data[0].1[3].0, 1.0);
    assert_eq!(data[0].1.iter().map(|x| x.0).sum::<f32>(), 1.0);
    assert_eq!(data[1].1[0].0, 1.0);
}

#[test]
fn test_window_samples() {
    let records = vec![
        (rv(&[1.0, 2.0]), rv(&[10.0])),
        (rv(&[3.0, 4.0]), rv(&[20.0])),
        (rv(&[5.0, 6.0]), rv(&[30.0])),
        (rv(&[7.0, 8.0]), rv(&[40.0])),
    ];
    let samples = window_samples(&records, 2, 0, 2, 1);
    assert_eq!(samples.len(), 2);
    assert_eq!(fv(&samples[0].0), vec![1.0, 2.0, 3.0, 4.0]);
    assert_eq!(fv(&samples[0].1), vec![30.0]);
    assert_eq!(fv(&samples[1].0), vec![3.0, 4.0, 5.0, 6.0]);
    assert_eq!(fv(&samples[1].1), vec![40.0]);
    let offset = window_samples(&records, 1, 1, 2, 1);
    assert_eq!(offset.len(), 2);
    assert_eq!(fv(&offset[0].0), vec![1.0, 2.0]);
    assert_eq!(fv(&offset[0].1), vec![30.0]);
}

#[test]
fn test_total_cost_includes_l2_penalty() {
    // One layer [1, 1] with weight w = 2, bias 0; lambda = 4; one sample.
    let mut init = Basic { source: FixedSource::new(rv(&[0.0, 2.0])) };
    let net: Network<R, QuadraticCost> = Network::new(&[1, 1], &mut init).lambda(R(4.0));
    let data = vec![(rv(&[0.0]), rv(&[0.5]))];
    // Output is sigmoid(0) = 0.5, so the raw cost is 0 and only the penalty
    // 0.5 * (lambda / 1) * w^2 = 0.5 * 4 * 4 = 8 remains.
    let cost = net.total_cost(&data);
    assert_eq!(cost.0, 8.0);
}
