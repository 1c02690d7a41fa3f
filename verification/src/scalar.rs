use vstd::prelude::*;

verus! {

/// The arithmetic interface of the number type the network computes with.
///
/// The engine never touches machine numbers itself: a caller picks a scalar
/// type (typically a thin wrapper around a hardware float) and supplies these
/// operations. Nothing is assumed about them — no algebraic law, no rounding
/// behaviour — so every contract in this crate that mentions scalars is
/// purely structural and holds for any implementation.
pub trait Scalar: Sized + Copy {
    /// The additive identity, used to seed gradient accumulators and sums.
    fn zero() -> Self;

    /// The multiplicative identity.
    fn one() -> Self;

    /// The scalar standing for the count `n` (for mean and decay factors).
    fn from_count(n: usize) -> Self;

    /// Addition.
    fn plus(self, other: Self) -> Self;

    /// Subtraction.
    fn minus(self, other: Self) -> Self;

    /// Multiplication.
    fn times(self, other: Self) -> Self;

    /// Division.
    fn over(self, other: Self) -> Self;

    /// Additive inverse.
    fn neg(self) -> Self;

    /// Natural logarithm, with an infinite result clamped to the largest
    /// finite magnitude of the same sign (the cross-entropy guard).
    fn ln_clamped(self) -> Self;

    /// Square root (for fan-in scaling at initialization).
    fn sqrt(self) -> Self;

    /// Strict order, for locating a maximal coordinate.
    fn lt(self, other: Self) -> bool;

    /// Whether the value is strictly greater than zero.
    fn is_positive(self) -> bool;
}

} // verus!
