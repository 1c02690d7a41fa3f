//! A fully-connected feedforward neural network trained by mini-batch
//! stochastic gradient descent with backpropagation, configurable cost
//! function, L2 weight regularization and pluggable parameter initialization.
//!
//! The engine is generic over the scalar type it computes with (see
//! [`scalar::Scalar`]): callers supply the numeric operations, and every
//! contract in this crate states what holds for any such supplier — the
//! shapes of all parameter matrices, how a training set is partitioned and
//! shuffled, when training is refused with a configuration error, and how a
//! network survives a round trip through its stored form.

pub mod cost_function;
pub mod dataset;
pub mod network_initializer;
pub mod persistence;
pub mod scalar;
pub mod sgd_network;
pub mod shape;
pub mod sigmoid;
