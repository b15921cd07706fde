use beta_fit::error::FittingError;
use beta_fit::fitter::{fit, ShapeParams};
use beta_fit::rational::Ratio;

fn frac(num: i64, den: i64) -> Ratio {
    Ratio::new(num, den).unwrap()
}

fn analytic_mean(p: &ShapeParams) -> Ratio {
    let sum = p.alpha.checked_add(&p.beta).unwrap();
    p.alpha.checked_div(&sum).unwrap()
}

fn analytic_variance(p: &ShapeParams) -> Ratio {
    let sum = p.alpha.checked_add(&p.beta).unwrap();
    let sum_plus_one = sum.checked_add(&Ratio::from_int(1)).unwrap();
    let denominator = sum.checked_mul(&sum).unwrap().checked_mul(&sum_plus_one).unwrap();
    p.alpha.checked_mul(&p.beta).unwrap().checked_div(&denominator).unwrap()
}

#[test]
fn fit_of_the_default_moments() {
    // common factor 0.7 * 0.3 / 0.04 - 1 = 17/4
    let p = fit(&frac(7, 10), &frac(1, 25)).unwrap();
    assert_eq!(p.alpha, frac(119, 40));
    assert_eq!(p.beta, frac(51, 40));
    assert_eq!(p.alpha.checked_add(&p.beta), Some(frac(17, 4)));
}

#[test]
fn fit_gives_positive_parameters_on_valid_moments() {
    let cases = [
        (frac(7, 10), frac(1, 25)),
        (frac(1, 2), frac(1, 5)),
        (frac(1, 100), frac(1, 1000)),
        (frac(99, 100), frac(1, 1000)),
        (frac(1, 3), frac(2, 9).checked_sub(&frac(1, 1000000)).unwrap()),
    ];
    for (mean, variance) in cases.iter() {
        let p = fit(mean, variance).unwrap();
        assert!(p.alpha.is_positive());
        assert!(p.beta.is_positive());
    }
}

#[test]
fn fit_round_trips_the_moments() {
    let cases = [
        (frac(7, 10), frac(1, 25)),
        (frac(1, 2), frac(1, 12)),
        (frac(1, 8), frac(1, 100)),
        (frac(9, 10), frac(1, 1000)),
    ];
    for (mean, variance) in cases.iter() {
        let p = fit(mean, variance).unwrap();
        assert_eq!(analytic_mean(&p), *mean);
        assert_eq!(analytic_variance(&p), *variance);
    }
}

#[test]
fn fit_of_the_uniform_distribution() {
    // mean 1/2 and variance 1/12 are the moments of Beta(1, 1)
    let p = fit(&frac(1, 2), &frac(1, 12)).unwrap();
    assert_eq!(p, ShapeParams { alpha: Ratio::from_int(1), beta: Ratio::from_int(1) });
}

#[test]
fn fit_is_symmetric_at_one_half() {
    for variance in [frac(1, 20), frac(1, 5), frac(1, 1000), frac(249, 1000)].iter() {
        let p = fit(&frac(1, 2), variance).unwrap();
        assert_eq!(p.alpha, p.beta);
    }
    let p = fit(&frac(1, 2), &frac(1, 20)).unwrap();
    assert_eq!(p.alpha, Ratio::from_int(2));
}

#[test]
fn fit_rejects_a_variance_that_is_too_large() {
    assert_eq!(fit(&frac(1, 2), &frac(3, 10)), Err(FittingError::InvalidShapeParameters));
    // exactly mean * (1 - mean): the common factor would be zero
    assert_eq!(fit(&frac(1, 2), &frac(1, 4)), Err(FittingError::InvalidShapeParameters));
    assert_eq!(fit(&frac(7, 10), &frac(21, 100)), Err(FittingError::InvalidShapeParameters));
}

#[test]
fn fit_rejects_a_variance_that_is_not_positive() {
    assert_eq!(fit(&frac(1, 2), &Ratio::from_int(0)), Err(FittingError::InvalidShapeParameters));
    assert_eq!(fit(&frac(1, 2), &frac(-1, 25)), Err(FittingError::InvalidShapeParameters));
}

#[test]
fn fit_rejects_a_mean_outside_the_open_unit_interval() {
    let v = frac(1, 25);
    assert_eq!(fit(&Ratio::from_int(0), &v), Err(FittingError::InvalidShapeParameters));
    assert_eq!(fit(&Ratio::from_int(1), &v), Err(FittingError::InvalidShapeParameters));
    assert_eq!(fit(&frac(3, 2), &v), Err(FittingError::InvalidShapeParameters));
    assert_eq!(fit(&frac(-1, 2), &v), Err(FittingError::InvalidShapeParameters));
    // a negative variance does not rescue a mean above one
    assert_eq!(fit(&frac(3, 2), &frac(-1, 25)), Err(FittingError::InvalidShapeParameters));
}

#[test]
fn fit_decides_validity_even_where_the_product_does_not_fit() {
    // mean * (1 - mean) = (2^40 - 1) / 2^80 is not representable
    let mean = frac(1, 1i64 << 40);
    assert_eq!(fit(&mean, &frac(1, 1i64 << 39)), Err(FittingError::InvalidShapeParameters));
    assert_eq!(fit(&mean, &frac(1, 1i64 << 41)), Err(FittingError::Unrepresentable));
}

#[test]
fn fit_reports_parameters_that_do_not_fit() {
    // The common factor is about 2^61 / 4, the parameters need more than 64 bits.
    let mean = frac(1, 3);
    let variance = frac(1, i64::MAX);
    assert_eq!(fit(&mean, &variance), Err(FittingError::Unrepresentable));
}
