//! Moving between the caller's interval and the unit interval.
//!
//! [`normalize`] rescales a mean and a standard deviation given on
//! `[min, max]` to the mean and variance of the same quantity on `[0, 1]`.
//! [`to_original_scale`] takes a coordinate of the unit interval back.

use crate::error::FittingError;
use crate::lowest_terms::frac;
use crate::rational::{representable, Ratio};
use vstd::prelude::*;

verus! {

/// What the caller knows about the quantity: its mean and standard deviation,
/// and the closed interval `[min, max]` in which it lies.
#[derive(Clone, Copy, Debug, PartialEq, Eq, Structural)]
pub struct FitInput {
    pub mean: Ratio,
    pub stddev: Ratio,
    pub min: Ratio,
    pub max: Ratio,
}

/// A mean and a variance rescaled to the unit interval.
#[derive(Clone, Copy, Debug, PartialEq, Eq, Structural)]
pub struct NormalizedMoments {
    pub mean: Ratio,
    pub variance: Ratio,
}

/// The mean `mean` of a quantity on `[min, max]`, as a fraction of the way
/// from `min` to `max`.
pub open spec fn normalized_mean(mean: real, min: real, max: real) -> real {
    (mean - min) / (max - min)
}

/// The variance, on the unit interval, of a quantity whose standard
/// deviation on `[min, max]` is `stddev`.
pub open spec fn normalized_variance(stddev: real, min: real, max: real) -> real {
    (stddev / (max - min)) * (stddev / (max - min))
}

/// The point of `[min, max]` that lies the fraction `u` of the way from `min`
/// to `max`.
pub open spec fn original_scale(u: real, min: real, max: real) -> real {
    u * (max - min) + min
}

/// Every quantity that [`normalize`] computes on the way is representable.
pub open spec fn normalize_fits(mean: real, stddev: real, min: real, max: real) -> bool {
    &&& representable(max - min)
    &&& representable(mean - min)
    &&& representable(normalized_mean(mean, min, max))
    &&& representable(stddev / (max - min))
    &&& representable(normalized_variance(stddev, min, max))
}

/// Every quantity that [`to_original_scale`] computes on the way is
/// representable.
pub open spec fn original_scale_fits(u: real, min: real, max: real) -> bool {
    &&& representable(max - min)
    &&& representable(u * (max - min))
    &&& representable(original_scale(u, min, max))
}

/// Normalisation does not depend on the unit or the origin of the caller's
/// scale: stretching mean, standard deviation and interval by a factor `a`
/// and shifting mean and interval by `b` leaves the normalised moments as
/// they were.
pub proof fn lemma_normalize_scale_invariant(
    mean: real,
    stddev: real,
    min: real,
    max: real,
    a: real,
    b: real,
)
    requires
        max != min,
        a != 0real,
    ensures
        normalized_mean(a * mean + b, a * min + b, a * max + b) == normalized_mean(
            mean,
            min,
            max,
        ),
        normalized_variance(a * stddev, a * min + b, a * max + b) == normalized_variance(
            stddev,
            min,
            max,
        ),
{
    let w = max - min;
    assert((a * max + b) - (a * min + b) == a * w) by (nonlinear_arith)
        requires
            w == max - min,
    ;
    assert((a * mean + b) - (a * min + b) == a * (mean - min)) by (nonlinear_arith);
    assert((a * (mean - min)) / (a * w) == (mean - min) / w) by (nonlinear_arith)
        requires
            a != 0real,
            w != 0real,
    ;
    assert((a * stddev) / (a * w) == stddev / w) by (nonlinear_arith)
        requires
            a != 0real,
            w != 0real,
    ;
}

/// A point of the stretched and shifted interval is the stretched and
/// shifted point of the original interval: what is reported on the caller's
/// scale follows the caller's scale linearly.
pub proof fn lemma_original_scale_linear(u: real, min: real, max: real, a: real, b: real)
    ensures
        original_scale(u, a * min + b, a * max + b) == a * original_scale(u, min, max) + b,
{
    assert(u * ((a * max + b) - (a * min + b)) + (a * min + b) == a * (u * (max - min) + min) + b)
        by (nonlinear_arith);
}

/// On a proper interval, a larger unit coordinate is a larger point.
pub proof fn lemma_original_scale_monotonic(u1: real, u2: real, min: real, max: real)
    requires
        min <= max,
        u1 <= u2,
    ensures
        original_scale(u1, min, max) <= original_scale(u2, min, max),
        (min < max && u1 < u2) ==> original_scale(u1, min, max) < original_scale(u2, min, max),
{
    let w = max - min;
    assert(u1 * w <= u2 * w) by (nonlinear_arith)
        requires
            u1 <= u2,
            w >= 0real,
    ;
    if min < max && u1 < u2 {
        assert(u1 * w < u2 * w) by (nonlinear_arith)
            requires
                u1 < u2,
                w > 0real,
        ;
    }
}

/// The ends of the unit interval are the ends of the caller's interval, and
/// every unit coordinate lands inside it.
pub proof fn lemma_original_scale_within(u: real, min: real, max: real)
    requires
        min <= max,
        0real <= u <= 1real,
    ensures
        original_scale(0real, min, max) == min,
        original_scale(1real, min, max) == max,
        min <= original_scale(u, min, max) <= max,
{
    let w = max - min;
    assert(0real * w == 0real) by (nonlinear_arith);
    assert(1real * w == w) by (nonlinear_arith);
    lemma_original_scale_monotonic(0real, u, min, max);
    lemma_original_scale_monotonic(u, 1real, min, max);
}

impl FitInput {
    /// The input describes a proper interval and a proper spread.
    pub open spec fn valid(self) -> bool {
        self.max@ > self.min@ && self.stddev@ > 0real
    }

    /// Whether the interval has a positive width and the standard deviation
    /// is positive.
    pub fn is_valid(&self) -> (b: bool)
        ensures
            b == self.valid(),
    {
        self.min.lt(&self.max) && self.stddev.is_positive()
    }
}

impl Default for FitInput {
    /// A mean of 0.7 and a standard deviation of 0.2 on the unit interval.
    fn default() -> (r: FitInput)
        ensures
            r.mean@ == frac(7, 10),
            r.stddev@ == frac(2, 10),
            r.min@ == 0real,
            r.max@ == 1real,
            r.valid(),
    {
        let r = FitInput {
            mean: Ratio::positive_fraction(7, 10),
            stddev: Ratio::positive_fraction(2, 10),
            min: Ratio::from_int(0),
            max: Ratio::from_int(1),
        };
        proof {
            assert(frac(2, 10) > 0real) by (nonlinear_arith);
        }
        r
    }
}

/// Rescales the mean and the standard deviation of `input` to the unit
/// interval: the mean becomes `(mean - min) / (max - min)` and the variance
/// `(stddev / (max - min))^2`.
///
/// Fails with [`FittingError::InvalidInterval`] exactly when `max == min`.
/// Nothing else about the input is checked: a mean outside the interval is
/// rescaled like any other and is rejected when the moments are fitted.
pub fn normalize(input: &FitInput) -> (r: Result<NormalizedMoments, FittingError>)
    ensures
        match r {
            Ok(m) => {
                &&& input.max@ != input.min@
                &&& normalize_fits(input.mean@, input.stddev@, input.min@, input.max@)
                &&& m.mean@ == normalized_mean(input.mean@, input.min@, input.max@)
                &&& m.variance@ == normalized_variance(input.stddev@, input.min@, input.max@)
            },
            Err(FittingError::InvalidInterval) => input.max@ == input.min@,
            Err(FittingError::Unrepresentable) => {
                &&& input.max@ != input.min@
                &&& !normalize_fits(input.mean@, input.stddev@, input.min@, input.max@)
            },
            Err(FittingError::InvalidShapeParameters) => false,
        },
{
    if input.max.equals(&input.min) {
        return Err(FittingError::InvalidInterval);
    }
    let scale = match input.max.checked_sub(&input.min) {
        Some(s) => s,
        None => { return Err(FittingError::Unrepresentable); },
    };
    let offset = match input.mean.checked_sub(&input.min) {
        Some(s) => s,
        None => { return Err(FittingError::Unrepresentable); },
    };
    let mean = match offset.checked_div(&scale) {
        Some(s) => s,
        None => { return Err(FittingError::Unrepresentable); },
    };
    let spread = match input.stddev.checked_div(&scale) {
        Some(s) => s,
        None => { return Err(FittingError::Unrepresentable); },
    };
    let variance = match spread.checked_mul(&spread) {
        Some(s) => s,
        None => { return Err(FittingError::Unrepresentable); },
    };
    proof {
        use_type_invariant(&scale);
        use_type_invariant(&offset);
        use_type_invariant(&mean);
        use_type_invariant(&spread);
        use_type_invariant(&variance);
        scale.lemma_lowest_terms();
        offset.lemma_lowest_terms();
        mean.lemma_lowest_terms();
        spread.lemma_lowest_terms();
        variance.lemma_lowest_terms();
    }
    Ok(NormalizedMoments { mean, variance })
}

/// The point of `[min, max]` at the fraction `u` of the way from `min` to
/// `max`: `u * (max - min) + min`.
pub fn to_original_scale(u: &Ratio, min: &Ratio, max: &Ratio) -> (r: Result<Ratio, FittingError>)
    ensures
        match r {
            Ok(x) => original_scale_fits(u@, min@, max@) && x@ == original_scale(u@, min@, max@),
            Err(e) => e == FittingError::Unrepresentable && !original_scale_fits(u@, min@, max@),
        },
{
    let scale = match max.checked_sub(min) {
        Some(s) => s,
        None => { return Err(FittingError::Unrepresentable); },
    };
    let scaled = match u.checked_mul(&scale) {
        Some(s) => s,
        None => { return Err(FittingError::Unrepresentable); },
    };
    let x = match scaled.checked_add(min) {
        Some(s) => s,
        None => { return Err(FittingError::Unrepresentable); },
    };
    proof {
        use_type_invariant(&scale);
        use_type_invariant(&scaled);
        use_type_invariant(&x);
        scale.lemma_lowest_terms();
        scaled.lemma_lowest_terms();
        x.lemma_lowest_terms();
    }
    Ok(x)
}

} // verus!
