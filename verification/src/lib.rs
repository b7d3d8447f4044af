//! A fixed-dimension linear Kalman filter over exact rational arithmetic.
//!
//! The filter keeps a state vector and its covariance matrix and refreshes
//! both from a motion model (`predict`) and from noisy observations
//! (`update`). All arithmetic is exact: scalars are rational numbers held as
//! integer numerator/denominator pairs, so singularity of the innovation
//! covariance is decided exactly by its determinant.

pub mod filter;
pub mod inverse;
pub mod laws;
pub mod matrix;
pub mod rational;
pub mod state;

pub use filter::{KalmanFilter, TransitionError};
pub use rational::Rat;
pub use state::State;
