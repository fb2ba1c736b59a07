//! A small numeric engine for training feed-forward neural networks:
//! a shape-checked tensor algebra over interchangeable storage variants,
//! and a backpropagation-based training loop built on top of it.
//!
//! All quantities are fixed-point numbers held in [`scalar::Scalar`]:
//! an integer count of millionths of a unit.  Every operation's result
//! is pinned down exactly, as an integer formula over those counts.

pub mod layer;
pub mod linalg;
pub mod model;
pub mod scalar;
