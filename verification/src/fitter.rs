//! Method-of-moments estimation of the two shape parameters of a Beta
//! distribution.
//!
//! A Beta distribution with shape parameters `alpha` and `beta` has mean
//! `alpha / (alpha + beta)` and variance
//! `alpha * beta / ((alpha + beta)^2 * (alpha + beta + 1))`. Solving the two
//! equations for a given mean `m` and variance `v` gives
//! `alpha = m * c` and `beta = (1 - m) * c` with `c = m * (1 - m) / v - 1`.

use crate::error::FittingError;
use crate::rational::{lemma_representable_near_one, representable, Ratio};
use vstd::pervasive::unreached;
use vstd::prelude::*;

verus! {

/// The two shape parameters of a Beta distribution.
#[derive(Clone, Copy, Debug, PartialEq, Eq, Structural)]
pub struct ShapeParams {
    pub alpha: Ratio,
    pub beta: Ratio,
}

/// The moments that some Beta distribution has: a mean strictly inside the
/// unit interval and a variance strictly between zero and
/// `mean * (1 - mean)`.
pub open spec fn moments_valid(mean: real, variance: real) -> bool {
    &&& 0real < mean < 1real
    &&& 0real < variance < mean * (1real - mean)
}

/// The factor that both shape parameters share, which is also their sum.
pub open spec fn common_factor(mean: real, variance: real) -> real {
    mean * (1real - mean) / variance - 1real
}

/// The first shape parameter of the Beta distribution with the given moments.
pub open spec fn fit_alpha(mean: real, variance: real) -> real {
    mean * common_factor(mean, variance)
}

/// The second shape parameter of the Beta distribution with the given
/// moments.
pub open spec fn fit_beta(mean: real, variance: real) -> real {
    (1real - mean) * common_factor(mean, variance)
}

/// The mean of the Beta distribution with shape parameters `alpha`, `beta`.
pub open spec fn beta_mean(alpha: real, beta: real) -> real {
    alpha / (alpha + beta)
}

/// The variance of the Beta distribution with shape parameters `alpha`,
/// `beta`.
pub open spec fn beta_variance(alpha: real, beta: real) -> real {
    alpha * beta / ((alpha + beta) * (alpha + beta) * (alpha + beta + 1real))
}

/// Every quantity that [`fit`] computes on the way is representable.
pub open spec fn fit_fits(mean: real, variance: real) -> bool {
    &&& representable(mean * (1real - mean))
    &&& representable(mean * (1real - mean) / variance)
    &&& representable(fit_alpha(mean, variance))
    &&& representable(fit_beta(mean, variance))
}

/// Valid moments give a common factor, and so two shape parameters, that are
/// strictly positive.
pub proof fn lemma_fit_positive(mean: real, variance: real)
    requires
        moments_valid(mean, variance),
    ensures
        common_factor(mean, variance) > 0real,
        fit_alpha(mean, variance) > 0real,
        fit_beta(mean, variance) > 0real,
{
    let s = mean * (1real - mean);
    let c = common_factor(mean, variance);
    assert(s / variance > 1real) by (nonlinear_arith)
        requires
            0real < variance < s,
    ;
    assert(mean * c > 0real) by (nonlinear_arith)
        requires
            mean > 0real,
            c > 0real,
    ;
    assert((1real - mean) * c > 0real) by (nonlinear_arith)
        requires
            1real - mean > 0real,
            c > 0real,
    ;
}

/// Only valid moments give two strictly positive shape parameters: with a
/// mean outside the open unit interval, or a variance that is negative or at
/// least `mean * (1 - mean)`, one of them is zero or negative.
pub proof fn lemma_positive_shapes_need_valid_moments(mean: real, variance: real)
    requires
        variance != 0real,
        fit_alpha(mean, variance) > 0real,
        fit_beta(mean, variance) > 0real,
    ensures
        moments_valid(mean, variance),
{
    let c = common_factor(mean, variance);
    let s = mean * (1real - mean);
    assert(c > 0real && 0real < mean < 1real) by (nonlinear_arith)
        requires
            mean * c > 0real,
            (1real - mean) * c > 0real,
    ;
    assert(s > 0real) by (nonlinear_arith)
        requires
            0real < mean < 1real,
            s == mean * (1real - mean),
    ;
    assert(0real < variance < s) by (nonlinear_arith)
        requires
            s / variance - 1real > 0real,
            s > 0real,
            variance != 0real,
    ;
}

/// The fit inverts the moments of the Beta distribution exactly: the
/// distribution with the fitted shape parameters has the mean and the
/// variance that were asked for.
pub proof fn lemma_fit_round_trip(mean: real, variance: real)
    requires
        moments_valid(mean, variance),
    ensures
        beta_mean(fit_alpha(mean, variance), fit_beta(mean, variance)) == mean,
        beta_variance(fit_alpha(mean, variance), fit_beta(mean, variance)) == variance,
{
    lemma_fit_positive(mean, variance);
    let c = common_factor(mean, variance);
    let a = fit_alpha(mean, variance);
    let b = fit_beta(mean, variance);
    assert(a + b == c) by (nonlinear_arith)
        requires
            a == mean * c,
            b == (1real - mean) * c,
    ;
    assert(a / c == mean) by (nonlinear_arith)
        requires
            a == mean * c,
            c > 0real,
    ;
    assert(a * b / (c * c * (c + 1real)) == variance) by (nonlinear_arith)
        requires
            a == mean * c,
            b == (1real - mean) * c,
            c == mean * (1real - mean) / variance - 1real,
            c > 0real,
            variance > 0real,
    ;
}

/// A mean of one half gives a symmetric distribution: the two shape
/// parameters are equal, whatever the variance.
pub proof fn lemma_fit_symmetric(mean: real, variance: real)
    requires
        mean == 1real / 2real,
    ensures
        fit_alpha(mean, variance) == fit_beta(mean, variance),
{
}

/// Fits the shape parameters of the Beta distribution whose mean is `mean`
/// and whose variance is `variance`.
///
/// Fails with [`FittingError::InvalidShapeParameters`] exactly when the
/// moments are not those of a Beta distribution, in which case a shape
/// parameter would be zero or negative. On valid moments the parameters are
/// exact and strictly positive, unless one of the quantities computed on the
/// way is not representable.
pub fn fit(mean: &Ratio, variance: &Ratio) -> (r: Result<ShapeParams, FittingError>)
    ensures
        match r {
            Ok(p) => {
                &&& moments_valid(mean@, variance@)
                &&& fit_fits(mean@, variance@)
                &&& p.alpha@ == fit_alpha(mean@, variance@)
                &&& p.beta@ == fit_beta(mean@, variance@)
                &&& p.alpha@ > 0real
                &&& p.beta@ > 0real
            },
            Err(FittingError::InvalidShapeParameters) => !moments_valid(mean@, variance@),
            Err(FittingError::Unrepresentable) => {
                &&& moments_valid(mean@, variance@)
                &&& !fit_fits(mean@, variance@)
            },
            Err(FittingError::InvalidInterval) => false,
        },
{
    let one = Ratio::from_int(1);
    if !(mean.is_positive() && mean.lt(&one) && variance.is_positive()) {
        return Err(FittingError::InvalidShapeParameters);
    }
    proof {
        use_type_invariant(mean);
        mean.lemma_lowest_terms();
        lemma_representable_near_one(mean@);
    }
    let rest = match one.checked_sub(mean) {
        Some(s) => s,
        None => unreached(),
    };
    if !variance.lt_product(mean, &rest) {
        return Err(FittingError::InvalidShapeParameters);
    }
    proof {
        lemma_fit_positive(mean@, variance@);
    }
    let spread = match mean.checked_mul(&rest) {
        Some(s) => s,
        None => { return Err(FittingError::Unrepresentable); },
    };
    let ratio = match spread.checked_div(variance) {
        Some(s) => s,
        None => { return Err(FittingError::Unrepresentable); },
    };
    proof {
        use_type_invariant(&spread);
        use_type_invariant(&ratio);
        spread.lemma_lowest_terms();
        ratio.lemma_lowest_terms();
        lemma_representable_near_one(ratio@);
    }
    let factor = match ratio.checked_sub(&one) {
        Some(s) => s,
        None => unreached(),
    };
    let alpha = match mean.checked_mul(&factor) {
        Some(s) => s,
        None => { return Err(FittingError::Unrepresentable); },
    };
    let beta = match rest.checked_mul(&factor) {
        Some(s) => s,
        None => { return Err(FittingError::Unrepresentable); },
    };
    proof {
        use_type_invariant(&alpha);
        use_type_invariant(&beta);
        alpha.lemma_lowest_terms();
        beta.lemma_lowest_terms();
    }
    Ok(ShapeParams { alpha, beta })
}

} // verus!
