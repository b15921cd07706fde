use beta_fit::interval::{default_probabilities, report};
use beta_fit::model::DistributionModel;
use beta_fit::rational::Ratio;
use beta_fit::sampler::{sample, sample_positions, DEFAULT_RESOLUTION};
use beta_fit::scaler::FitInput;
use statrs::distribution::{Beta, Continuous, ContinuousCDF};
use statrs::statistics::Distribution;

const GRAIN: i64 = 1_000_000_000;

fn frac(num: i64, den: i64) -> Ratio {
    Ratio::new(num, den).unwrap()
}

fn to_f64(r: &Ratio) -> f64 {
    r.numer() as f64 / r.denom() as f64
}

fn to_ratio(x: f64) -> Ratio {
    Ratio::new((x * GRAIN as f64).round() as i64, GRAIN).unwrap()
}

fn distribution(model: &DistributionModel) -> Beta {
    Beta::new(to_f64(&model.alpha()), to_f64(&model.beta())).unwrap()
}

fn quantile(beta: &Beta, p: &Ratio) -> Ratio {
    to_ratio(beta.inverse_cdf(to_f64(p)))
}

#[test]
fn default_input_end_to_end() {
    let input = FitInput::default();
    let model = DistributionModel::from_input(&input).unwrap();
    assert_eq!(to_f64(&model.alpha()), 2.975);
    assert_eq!(to_f64(&model.beta()), 1.275);
    let beta = distribution(&model);
    let (lower, upper) = default_probabilities();
    let ci = report(&quantile(&beta, &lower), &quantile(&beta, &upper), &input.min, &input.max)
        .unwrap();
    assert!(Ratio::from_int(0).le(&ci.low));
    assert!(ci.low.lt(&frac(7, 10)));
    assert!(frac(7, 10).lt(&ci.high));
    assert!(ci.high.le(&Ratio::from_int(1)));
}

#[test]
fn fitted_distribution_has_the_requested_moments() {
    let model = DistributionModel::from_input(&FitInput::default()).unwrap();
    let beta = distribution(&model);
    assert!((beta.mean().unwrap() - 0.7).abs() < 1e-9);
    assert!((beta.variance().unwrap() - 0.04).abs() < 1e-9);
}

#[test]
fn quantiles_do_not_decrease() {
    let model = DistributionModel::from_input(&FitInput::default()).unwrap();
    let beta = distribution(&model);
    let q0 = beta.inverse_cdf(0.0);
    let q50 = beta.inverse_cdf(0.5);
    let q100 = beta.inverse_cdf(1.0);
    assert!(q0 <= q50);
    assert!(q50 <= q100);
    assert_eq!(q0, 0.0);
    assert_eq!(q100, 1.0);
    let mut previous = q0;
    for step in 1..=100 {
        let q = beta.inverse_cdf(step as f64 / 100.0);
        assert!(previous <= q);
        previous = q;
    }
    let low = report(&to_ratio(q0), &to_ratio(q50), &Ratio::from_int(0), &Ratio::from_int(1))
        .unwrap();
    let high = report(&to_ratio(q50), &to_ratio(q100), &Ratio::from_int(0), &Ratio::from_int(1))
        .unwrap();
    assert!(low.low.le(&low.high));
    assert!(high.low.le(&high.high));
}

#[test]
fn interval_rescales_with_the_input() {
    let (lower, upper) = default_probabilities();
    let unit = FitInput::default();
    let moved = FitInput {
        mean: frac(22, 5),
        stddev: frac(2, 5),
        min: Ratio::from_int(3),
        max: Ratio::from_int(5),
    };
    let unit_model = DistributionModel::from_input(&unit).unwrap();
    let moved_model = DistributionModel::from_input(&moved).unwrap();
    assert_eq!(unit_model, moved_model);
    let beta = distribution(&unit_model);
    let q_low = quantile(&beta, &lower);
    let q_high = quantile(&beta, &upper);
    let a = report(&q_low, &q_high, &unit.min, &unit.max).unwrap();
    let b = report(&q_low, &q_high, &moved.min, &moved.max).unwrap();
    let rescaled = |x: &Ratio| {
        Ratio::from_int(2).checked_mul(x).unwrap().checked_add(&Ratio::from_int(3)).unwrap()
    };
    assert_eq!(b.low, rescaled(&a.low));
    assert_eq!(b.high, rescaled(&a.high));
}

#[test]
fn density_curve_of_the_default_input() {
    let input = FitInput::default();
    let model = DistributionModel::from_input(&input).unwrap();
    let beta = distribution(&model);
    let positions = sample_positions(DEFAULT_RESOLUTION);
    let densities: Vec<Ratio> = positions.iter().map(|u| to_ratio(beta.pdf(to_f64(u)))).collect();
    let curve = sample(&densities, &input.min, &input.max).unwrap();
    assert_eq!(curve.points.len(), 1000);
    assert_eq!(curve.points[0].x, Ratio::from_int(0));
    assert_eq!(curve.points[999].x, frac(999, 1000));
    let peak = curve.peak.unwrap();
    assert!(peak.is_positive());
    let mut reached = false;
    for (i, p) in curve.points.iter().enumerate() {
        assert_eq!(p.x, positions[i]);
        assert_eq!(p.y, densities[i]);
        assert!(p.y.le(&peak));
        reached = reached || p.y == peak;
    }
    assert!(reached);
    // Beta(2.975, 1.275) has its mode at (alpha - 1) / (alpha + beta - 2) = 79/90
    let mode = to_f64(&frac(79, 90));
    assert!((to_f64(&peak) - beta.pdf(mode)).abs() < 1e-3);
}
