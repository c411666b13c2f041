//! A small feedforward neural network trained by backpropagation, built on a
//! dense matrix library over fixed-point numbers.
//!
//! Values are fixed-point integers in which `ONE` stands for 1.0 (see
//! `fixed`); arithmetic saturates at the bounds of `i64`.

pub mod fixed;
pub mod matrix;
pub mod network;

pub use fixed::{fixed_add, fixed_mul, fixed_sub, leaky_relu, leaky_relu_prime, ONE, TENTH};
pub use matrix::{Matrix, MatrixError};
pub use network::{NetworkError, NeuralNetwork};
