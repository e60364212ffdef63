//! A fully connected, single-hidden-layer feed-forward network for
//! classifying handwritten digit images, verified end to end.
//!
//! All numeric work is done in signed 64-bit fixed-point arithmetic
//! (sixteen fractional bits), so every weight update and every forward
//! pass carries an exact contract.  Callers supply a scaled input vector
//! and a one-hot-like target vector; decoding CSV rows and image files
//! into those vectors is left to the surrounding program.

pub mod activation;
pub mod dataset;
pub mod fixed;
pub mod linalg;
pub mod network;
pub mod rng;
