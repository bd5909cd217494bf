//! A small supervised-learning trainer: a chain of single-output linear
//! units, trained by a delta-rule update and scored on sign classification.
//!
//! * [`Layer`] is one unit: a weighted sum plus a bias, and the update
//!   `weight += rate * error * input`.
//! * [`MLP`] chains units, each reading the one number that the unit before
//!   it put out. It predicts, takes training steps, runs whole epochs and
//!   measures accuracy.
//! * [`Scalar`] is the arithmetic that all of this runs on. Every result is
//!   stated exactly in terms of its operations, in the order in which they
//!   are applied. [`Fixed`] is an arithmetic whose operations are themselves
//!   exact statements about integers.
//! * [`laws`] holds what follows for every network.
//!
//! Two things are settled here once and for all. Where a unit's weights and
//! its inputs differ in number, they are paired as far as both reach and the
//! rest takes no part. The accuracy on an empty data set is zero.
pub mod fixed;
pub mod laws;
pub mod layer;
pub mod network;
pub mod scalar;

pub use fixed::Fixed;
pub use layer::{Layer, LayerModel};
pub use network::{NetworkModel, MLP};
pub use scalar::Scalar;
