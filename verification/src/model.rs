//! A Beta distribution with validated shape parameters.
//!
//! A [`DistributionModel`] can only be built from two strictly positive
//! shape parameters. Its density and its quantile function are defined for
//! arguments in the closed unit interval; [`DistributionModel::in_support`]
//! tells whether an argument is. Evaluating them is left to the caller.

use crate::error::FittingError;
use crate::fitter::{
    beta_mean, beta_variance, fit, fit_alpha, fit_beta, fit_fits, lemma_fit_positive,
    lemma_fit_round_trip, moments_valid, ShapeParams,
};
use crate::rational::Ratio;
use crate::scaler::{normalize, normalize_fits, normalized_mean, normalized_variance, FitInput};
use vstd::prelude::*;

verus! {

/// A Beta distribution, given by two strictly positive shape parameters.
#[derive(Clone, Copy, Debug, PartialEq, Eq, Structural)]
pub struct DistributionModel {
    alpha: Ratio,
    beta: Ratio,
}

/// The moments, on the unit interval, of the quantity that `input` describes
/// are those of a Beta distribution.
pub open spec fn input_moments_valid(input: FitInput) -> bool {
    moments_valid(
        normalized_mean(input.mean@, input.min@, input.max@),
        normalized_variance(input.stddev@, input.min@, input.max@),
    )
}

/// Every quantity computed on the way from `input` to a model is
/// representable.
pub open spec fn input_fits(input: FitInput) -> bool {
    &&& normalize_fits(input.mean@, input.stddev@, input.min@, input.max@)
    &&& fit_fits(
        normalized_mean(input.mean@, input.min@, input.max@),
        normalized_variance(input.stddev@, input.min@, input.max@),
    )
}

/// An input with a proper interval and a positive standard deviation, whose
/// variance on the unit interval is below `mean * (1 - mean)`, is fitted by
/// two strictly positive shape parameters.
pub proof fn lemma_valid_input_fits_positive(mean: real, stddev: real, min: real, max: real)
    requires
        max > min,
        stddev > 0real,
        0real < normalized_variance(stddev, min, max) < normalized_mean(mean, min, max) * (1real
            - normalized_mean(mean, min, max)),
    ensures
        fit_alpha(normalized_mean(mean, min, max), normalized_variance(stddev, min, max)) > 0real,
        fit_beta(normalized_mean(mean, min, max), normalized_variance(stddev, min, max)) > 0real,
{
    let m = normalized_mean(mean, min, max);
    let v = normalized_variance(stddev, min, max);
    assert(0real < m < 1real) by (nonlinear_arith)
        requires
            0real < m * (1real - m),
    ;
    lemma_fit_positive(m, v);
}

impl DistributionModel {
    /// Both shape parameters are strictly positive.
    #[verifier::type_invariant]
    pub closed spec fn positive(self) -> bool {
        self.alpha@ > 0real && self.beta@ > 0real
    }

    /// The first shape parameter.
    pub closed spec fn alpha_value(self) -> real {
        self.alpha@
    }

    /// The second shape parameter.
    pub closed spec fn beta_value(self) -> real {
        self.beta@
    }

    /// The mean of the distribution, `alpha / (alpha + beta)`.
    pub open spec fn mean(self) -> real {
        beta_mean(self.alpha_value(), self.beta_value())
    }

    /// The variance of the distribution,
    /// `alpha * beta / ((alpha + beta)^2 * (alpha + beta + 1))`.
    pub open spec fn variance(self) -> real {
        beta_variance(self.alpha_value(), self.beta_value())
    }

    /// The arguments for which density and quantile are defined: the closed
    /// unit interval.
    pub open spec fn support(x: real) -> bool {
        0real <= x <= 1real
    }

    /// The distribution with the given shape parameters.
    ///
    /// Fails with [`FittingError::InvalidShapeParameters`] exactly when one
    /// of them is zero or negative.
    pub fn new(params: ShapeParams) -> (r: Result<DistributionModel, FittingError>)
        ensures
            match r {
                Ok(m) => {
                    &&& params.alpha@ > 0real
                    &&& params.beta@ > 0real
                    &&& m.alpha_value() == params.alpha@
                    &&& m.beta_value() == params.beta@
                },
                Err(e) => {
                    &&& e == FittingError::InvalidShapeParameters
                    &&& !(params.alpha@ > 0real && params.beta@ > 0real)
                },
            },
    {
        if params.alpha.is_positive() && params.beta.is_positive() {
            Ok(DistributionModel { alpha: params.alpha, beta: params.beta })
        } else {
            Err(FittingError::InvalidShapeParameters)
        }
    }

    /// The distribution on the unit interval that matches the mean and the
    /// standard deviation of `input`: the input is normalised, its moments
    /// are fitted, and the shape parameters are validated.
    ///
    /// Fails with [`FittingError::InvalidInterval`] exactly when the interval
    /// is empty. Otherwise, when every quantity on the way is representable,
    /// it fails with [`FittingError::InvalidShapeParameters`] exactly when
    /// the normalised moments are not those of a Beta distribution.
    pub fn from_input(input: &FitInput) -> (r: Result<DistributionModel, FittingError>)
        ensures
            match r {
                Ok(m) => {
                    &&& input.max@ != input.min@
                    &&& input_moments_valid(*input)
                    &&& input_fits(*input)
                    &&& m.alpha_value() == fit_alpha(
                        normalized_mean(input.mean@, input.min@, input.max@),
                        normalized_variance(input.stddev@, input.min@, input.max@),
                    )
                    &&& m.beta_value() == fit_beta(
                        normalized_mean(input.mean@, input.min@, input.max@),
                        normalized_variance(input.stddev@, input.min@, input.max@),
                    )
                    &&& m.mean() == normalized_mean(input.mean@, input.min@, input.max@)
                    &&& m.variance() == normalized_variance(
                        input.stddev@,
                        input.min@,
                        input.max@,
                    )
                },
                Err(FittingError::InvalidInterval) => input.max@ == input.min@,
                Err(FittingError::InvalidShapeParameters) => {
                    &&& input.max@ != input.min@
                    &&& normalize_fits(input.mean@, input.stddev@, input.min@, input.max@)
                    &&& !input_moments_valid(*input)
                },
                Err(FittingError::Unrepresentable) => {
                    &&& input.max@ != input.min@
                    &&& !input_fits(*input)
                    &&& normalize_fits(input.mean@, input.stddev@, input.min@, input.max@)
                        ==> input_moments_valid(*input)
                },
            },
    {
        let moments = match normalize(input) {
            Ok(m) => m,
            Err(e) => { return Err(e); },
        };
        let params = match fit(&moments.mean, &moments.variance) {
            Ok(p) => p,
            Err(e) => { return Err(e); },
        };
        proof {
            lemma_fit_round_trip(moments.mean@, moments.variance@);
        }
        DistributionModel::new(params)
    }

    /// The first shape parameter, which is strictly positive.
    pub fn alpha(&self) -> (a: Ratio)
        ensures
            a@ == self.alpha_value(),
            a@ > 0real,
    {
        proof {
            use_type_invariant(self);
        }
        self.alpha
    }

    /// The second shape parameter, which is strictly positive.
    pub fn beta(&self) -> (b: Ratio)
        ensures
            b@ == self.beta_value(),
            b@ > 0real,
    {
        proof {
            use_type_invariant(self);
        }
        self.beta
    }

    /// Both shape parameters.
    pub fn params(&self) -> (p: ShapeParams)
        ensures
            p.alpha@ == self.alpha_value(),
            p.beta@ == self.beta_value(),
    {
        ShapeParams { alpha: self.alpha, beta: self.beta }
    }

    /// Whether density and quantile are defined at `x`, that is whether
    /// `0 <= x <= 1`.
    pub fn in_support(x: &Ratio) -> (b: bool)
        ensures
            b == Self::support(x@),
    {
        let zero = Ratio::from_int(0);
        let one = Ratio::from_int(1);
        zero.le(x) && x.le(&one)
    }
}

} // verus!
