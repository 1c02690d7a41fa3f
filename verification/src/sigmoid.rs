use vstd::prelude::*;

verus! {

/// The logistic activation, supplied by the scalar type together with its
/// derivative. For a numerically honest implementation `sigmoid` is
/// `1 / (1 + e^(-x))` and `sigmoid_prime` is `sigmoid(x) * (1 - sigmoid(x))`;
/// the engine only routes values through these calls and claims nothing of
/// what they compute.
pub trait Sigmoid: Sized {
    /// The activation of the value.
    fn sigmoid(&self) -> Self;

    /// The derivative of the activation at the value.
    fn sigmoid_prime(&self) -> Self;
}

/// Applies the activation to every coordinate of a vector.
pub fn sigmoid_all<S: Sigmoid + Copy>(v: &Vec<S>) -> (r: Vec<S>)
    ensures
        r@.len() == v@.len(),
{
    let mut r: Vec<S> = Vec::new();
    let mut i: usize = 0;
    while i < v.len()
        invariant
            i <= v@.len(),
            r@.len() == i,
        decreases v@.len() - i,
    {
        r.push(v[i].sigmoid());
        i = i + 1;
    }
    r
}

/// Applies the activation's derivative to every coordinate of a vector.
pub fn sigmoid_prime_all<S: Sigmoid + Copy>(v: &Vec<S>) -> (r: Vec<S>)
    ensures
        r@.len() == v@.len(),
{
    let mut r: Vec<S> = Vec::new();
    let mut i: usize = 0;
    while i < v.len()
        invariant
            i <= v@.len(),
            r@.len() == i,
        decreases v@.len() - i,
    {
        r.push(v[i].sigmoid_prime());
        i = i + 1;
    }
    r
}

} // verus!
