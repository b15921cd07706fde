//! Method-of-moments fitting of a Beta distribution over a closed interval,
//! in exact rational arithmetic.
//!
//! A caller supplies a mean, a standard deviation and an interval. The crate
//! rescales them to the unit interval, derives the two shape parameters of the
//! Beta distribution with those moments, lays out the sampling grid for the
//! density curve and maps quantiles back to the caller's scale. Every value is
//! an exact fraction ([`rational::Ratio`]) whose meaning in contracts is a
//! mathematical real number, so the algebraic laws of the fit hold exactly.
//!
//! Evaluating the density and the quantile function of the fitted distribution
//! needs transcendental functions and is left to the caller, who hands the
//! evaluated numbers back as fractions.

pub mod error;
pub mod fitter;
pub mod interval;
pub mod lowest_terms;
pub mod model;
pub mod rational;
pub mod sampler;
pub mod scaler;
