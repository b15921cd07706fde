//! Reporting an interval between two quantiles on the caller's scale.
//!
//! The caller looks up the quantiles of the fitted distribution at a lower
//! and an upper probability, which gives two unit coordinates. [`report`]
//! maps them to the caller's interval. With the probabilities 0.05 and 0.95
//! the result covers the central 90% of the distribution.

use crate::error::FittingError;
use crate::lowest_terms::frac;
use crate::rational::{representable, Ratio};
use crate::scaler::{
    lemma_original_scale_monotonic, original_scale, original_scale_fits, to_original_scale,
};
use vstd::prelude::*;

verus! {

/// The range between two quantiles, on the caller's scale.
#[derive(Clone, Copy, Debug, PartialEq, Eq, Structural)]
pub struct ConfidenceInterval {
    pub low: Ratio,
    pub high: Ratio,
}

/// Two probabilities between which an interval can be reported.
pub open spec fn probabilities_valid(lower: real, upper: real) -> bool {
    0real <= lower <= upper <= 1real
}

/// The share of the distribution, in percent, between the two
/// probabilities.
pub open spec fn confidence(lower: real, upper: real) -> real {
    (upper - lower) * 100real
}

impl ConfidenceInterval {
    /// The lower end does not exceed the upper end.
    pub open spec fn ordered(self) -> bool {
        self.low@ <= self.high@
    }
}

/// The probabilities of the customary report: 0.05 and 0.95, which frame
/// the central 90% of the distribution.
pub fn default_probabilities() -> (r: (Ratio, Ratio))
    ensures
        r.0@ == frac(1, 20),
        r.1@ == frac(19, 20),
        probabilities_valid(r.0@, r.1@),
        confidence(r.0@, r.1@) == 90real,
{
    proof {
        assert(0real <= frac(1, 20) <= frac(19, 20) <= 1real) by (nonlinear_arith);
        assert((frac(19, 20) - frac(1, 20)) * 100real == 90real) by (nonlinear_arith);
    }
    (Ratio::positive_fraction(1, 20), Ratio::positive_fraction(19, 20))
}

/// Whether `0 <= lower_p <= upper_p <= 1`, so that both quantiles are
/// defined and frame an interval.
pub fn valid_probabilities(lower_p: &Ratio, upper_p: &Ratio) -> (b: bool)
    ensures
        b == probabilities_valid(lower_p@, upper_p@),
{
    let zero = Ratio::from_int(0);
    let one = Ratio::from_int(1);
    zero.le(lower_p) && lower_p.le(upper_p) && upper_p.le(&one)
}

/// The confidence level in percent that belongs to the two probabilities:
/// `(upper_p - lower_p) * 100`. `None` exactly when the difference or the
/// level is not representable.
pub fn confidence_percent(lower_p: &Ratio, upper_p: &Ratio) -> (r: Option<Ratio>)
    ensures
        match r {
            Some(c) => {
                &&& representable(upper_p@ - lower_p@)
                &&& c@ == confidence(lower_p@, upper_p@)
            },
            None => {
                ||| !representable(upper_p@ - lower_p@)
                ||| !representable(confidence(lower_p@, upper_p@))
            },
        },
{
    let hundred = Ratio::from_int(100);
    match upper_p.checked_sub(lower_p) {
        Some(width) => {
            proof {
                use_type_invariant(&width);
                width.lemma_lowest_terms();
            }
            width.checked_mul(&hundred)
        },
        None => None,
    }
}

/// Maps the quantiles `q_low` and `q_high`, given as unit coordinates, to
/// the interval `[min, max]`: each end is `q * (max - min) + min`.
///
/// Quantiles in ascending order on an interval with `min <= max` give an
/// interval whose lower end does not exceed its upper end.
pub fn report(q_low: &Ratio, q_high: &Ratio, min: &Ratio, max: &Ratio) -> (r: Result<
    ConfidenceInterval,
    FittingError,
>)
    ensures
        match r {
            Ok(ci) => {
                &&& original_scale_fits(q_low@, min@, max@)
                &&& original_scale_fits(q_high@, min@, max@)
                &&& ci.low@ == original_scale(q_low@, min@, max@)
                &&& ci.high@ == original_scale(q_high@, min@, max@)
                &&& (q_low@ <= q_high@ && min@ <= max@) ==> ci.ordered()
            },
            Err(e) => {
                &&& e == FittingError::Unrepresentable
                &&& !(original_scale_fits(q_low@, min@, max@) && original_scale_fits(
                    q_high@,
                    min@,
                    max@,
                ))
            },
        },
{
    let low = match to_original_scale(q_low, min, max) {
        Ok(x) => x,
        Err(e) => { return Err(e); },
    };
    let high = match to_original_scale(q_high, min, max) {
        Ok(x) => x,
        Err(e) => { return Err(e); },
    };
    proof {
        if q_low@ <= q_high@ && min@ <= max@ {
            lemma_original_scale_monotonic(q_low@, q_high@, min@, max@);
        }
    }
    Ok(ConfidenceInterval { low, high })
}

} // verus!
