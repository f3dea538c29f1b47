//! Epicycles: a closed planar path, sampled at equal time steps, is taken apart into circles
//! that turn at whole-number frequencies, and put together again for any moment in time.
//!
//! * [`dft`] transforms the samples into coefficients, one after the other or side by side;
//! * [`circles`] turns each coefficient into a circle and chains the circles at a time `t`;
//! * [`laws`] proves what follows for every path.
//!
//! The numbers come from the caller as a [`Scalar`]. The library owns how they are
//! combined: which operation is applied to which values, in which order, and where each
//! result goes. Its contracts say exactly that, for every scalar.

pub mod scalar;
pub mod complex;
pub mod dft;
pub mod circles;
pub mod laws;

pub use crate::circles::{RotatingCircle, RotatingCircles};
pub use crate::complex::Complex;
pub use crate::dft::{dtf, dtf_parallel};
pub use crate::scalar::Scalar;
