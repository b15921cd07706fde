//! The ways in which a fit can fail.

use vstd::prelude::*;

verus! {

/// Why no result was produced. Every failure is a function of the input
/// alone, so nothing is gained by trying again with the same numbers.
#[derive(Clone, Copy, Debug, PartialEq, Eq, Structural)]
pub enum FittingError {
    /// The interval is empty: its upper bound equals its lower bound, so
    /// there is no scale to normalise by.
    InvalidInterval,
    /// The moments do not belong to any Beta distribution: the mean lies
    /// outside the open unit interval, or the variance is not strictly
    /// between zero and `mean * (1 - mean)`, so that a shape parameter would
    /// be zero or negative.
    InvalidShapeParameters,
    /// A value that the computation needs cannot be written as a fraction
    /// of two 64-bit integers.
    Unrepresentable,
}

} // verus!
