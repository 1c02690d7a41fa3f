use vstd::prelude::*;

use crate::scalar::Scalar;
use crate::sigmoid::Sigmoid;

verus! {

/// A cost strategy: a scalar loss over an output activation and a target,
/// and the output-layer error signal that backpropagation starts from.
///
/// Implementations work coordinate by coordinate on vectors of equal length;
/// the error signal they return is as long as the activation.
pub trait CostFunction<S: Scalar + Sigmoid> {
    /// The scalar loss of activation `a` against target `y`.
    fn raw(a: &Vec<S>, y: &Vec<S>) -> S
        requires
            a@.len() == y@.len(),
    ;

    /// The output-layer error signal for activation `a`, target `y` and
    /// pre-activation `z`.
    fn delta(a: &Vec<S>, y: &Vec<S>, z: &Vec<S>) -> (r: Vec<S>)
        requires
            a@.len() == y@.len(),
            z@.len() == a@.len(),
        ensures
            r@.len() == a@.len(),
    ;
}

/// Cross-entropy loss, `sum(-y ln(a) - (1 - y) ln(1 - a))`, with the
/// logarithm's singularities clamped so that an exact hit (`a == y` at a
/// coordinate of 0 or 1) contributes zero instead of a NaN.
#[derive(Debug)]
pub struct CrossEntropyCost;

/// Quadratic loss, `0.5 * ||a - y||^2`.
#[derive(Debug)]
pub struct QuadraticCost;

impl<S: Scalar + Sigmoid> CostFunction<S> for CrossEntropyCost {
    fn raw(a: &Vec<S>, y: &Vec<S>) -> S {
        let mut total = S::zero();
        let mut i: usize = 0;
        while i < a.len()
            invariant
                i <= a@.len(),
                a@.len() == y@.len(),
            decreases a@.len() - i,
        {
            let ai = a[i];
            let yi = y[i];
            let hit = yi.neg().times(ai.ln_clamped());
            let miss = S::one().minus(yi).times(S::one().minus(ai).ln_clamped());
            total = total.plus(hit.minus(miss));
            i = i + 1;
        }
        total
    }

    fn delta(a: &Vec<S>, y: &Vec<S>, z: &Vec<S>) -> (r: Vec<S>) {
        let mut r: Vec<S> = Vec::new();
        let mut i: usize = 0;
        while i < a.len()
            invariant
                i <= a@.len(),
                a@.len() == y@.len(),
                r@.len() == i,
            decreases a@.len() - i,
        {
            r.push(a[i].minus(y[i]));
            i = i + 1;
        }
        r
    }
}

impl<S: Scalar + Sigmoid> CostFunction<S> for QuadraticCost {
    fn raw(a: &Vec<S>, y: &Vec<S>) -> S {
        let mut norm_sq = S::zero();
        let mut i: usize = 0;
        while i < a.len()
            invariant
                i <= a@.len(),
                a@.len() == y@.len(),
            decreases a@.len() - i,
        {
            let d = a[i].minus(y[i]);
            norm_sq = norm_sq.plus(d.times(d));
            i = i + 1;
        }
        S::one().over(S::from_count(2)).times(norm_sq)
    }

    fn delta(a: &Vec<S>, y: &Vec<S>, z: &Vec<S>) -> (r: Vec<S>) {
        let mut r: Vec<S> = Vec::new();
        let mut i: usize = 0;
        while i < a.len()
            invariant
                i <= a@.len(),
                a@.len() == y@.len(),
                z@.len() == a@.len(),
                r@.len() == i,
            decreases a@.len() - i,
        {
            r.push(a[i].minus(y[i]).times(z[i].sigmoid_prime()));
            i = i + 1;
        }
        r
    }
}

} // verus!
