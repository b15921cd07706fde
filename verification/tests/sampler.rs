use beta_fit::error::FittingError;
use beta_fit::rational::Ratio;
use beta_fit::sampler::{sample, sample_positions, CurvePoint, DEFAULT_RESOLUTION};

fn frac(num: i64, den: i64) -> Ratio {
    Ratio::new(num, den).unwrap()
}

fn ints(values: &[i64]) -> Vec<Ratio> {
    values.iter().map(|v| Ratio::from_int(*v)).collect()
}

#[test]
fn positions_are_evenly_spaced_and_stop_short_of_one() {
    let us = sample_positions(4);
    assert_eq!(us, vec![Ratio::from_int(0), frac(1, 4), frac(1, 2), frac(3, 4)]);
}

#[test]
fn positions_of_resolution_zero_and_one() {
    assert_eq!(sample_positions(0), Vec::<Ratio>::new());
    assert_eq!(sample_positions(1), vec![Ratio::from_int(0)]);
}

#[test]
fn positions_at_the_default_resolution() {
    assert_eq!(DEFAULT_RESOLUTION, 1000);
    let us = sample_positions(DEFAULT_RESOLUTION);
    assert_eq!(us.len(), 1000);
    assert_eq!(us[0], Ratio::from_int(0));
    assert_eq!(us[1], frac(1, 1000));
    assert_eq!(us[500], frac(1, 2));
    assert_eq!(us[999], frac(999, 1000));
    for u in us.iter() {
        assert!(u.lt(&Ratio::from_int(1)));
    }
}

#[test]
fn sample_places_the_densities_on_the_interval() {
    let ys = ints(&[1, 3, 2, 0]);
    let c = sample(&ys, &Ratio::from_int(10), &Ratio::from_int(20)).unwrap();
    assert_eq!(
        c.points,
        vec![
            CurvePoint { x: Ratio::from_int(10), y: Ratio::from_int(1) },
            CurvePoint { x: frac(25, 2), y: Ratio::from_int(3) },
            CurvePoint { x: Ratio::from_int(15), y: Ratio::from_int(2) },
            CurvePoint { x: frac(35, 2), y: Ratio::from_int(0) },
        ]
    );
    assert_eq!(c.peak, Some(Ratio::from_int(3)));
}

#[test]
fn sample_never_reaches_the_upper_bound() {
    let ys = ints(&[5; 10]);
    let max = Ratio::from_int(1);
    let c = sample(&ys, &Ratio::from_int(0), &max).unwrap();
    assert_eq!(c.points.len(), 10);
    assert_eq!(c.points[9].x, frac(9, 10));
    for p in c.points.iter() {
        assert!(p.x.lt(&max));
    }
}

#[test]
fn sample_is_in_ascending_order() {
    let ys = ints(&[4, 1, 9, 9, 2, 7, 0]);
    let c = sample(&ys, &frac(-3, 2), &frac(5, 3)).unwrap();
    for pair in c.points.windows(2) {
        assert!(pair[0].x.lt(&pair[1].x));
    }
    assert_eq!(c.points[0].x, frac(-3, 2));
}

#[test]
fn peak_is_the_greatest_density() {
    let at = |values: &[i64]| {
        sample(&ints(values), &Ratio::from_int(0), &Ratio::from_int(1)).unwrap().peak
    };
    assert_eq!(at(&[7]), Some(Ratio::from_int(7)));
    assert_eq!(at(&[1, 2, 3]), Some(Ratio::from_int(3)));
    assert_eq!(at(&[3, 2, 1]), Some(Ratio::from_int(3)));
    assert_eq!(at(&[2, 5, 5, 1]), Some(Ratio::from_int(5)));
    assert_eq!(at(&[-4, -2, -9]), Some(Ratio::from_int(-2)));
    assert_eq!(at(&[0, 0]), Some(Ratio::from_int(0)));
    let ys = vec![frac(1, 3), frac(1, 2), frac(2, 5)];
    let c = sample(&ys, &Ratio::from_int(0), &Ratio::from_int(1)).unwrap();
    assert_eq!(c.peak, Some(frac(1, 2)));
}

#[test]
fn sample_of_nothing_has_no_points_and_no_peak() {
    let c = sample(&Vec::new(), &Ratio::from_int(0), &Ratio::from_int(1)).unwrap();
    assert!(c.points.is_empty());
    assert_eq!(c.peak, None);
    // not even an interval too wide to measure matters
    let d = sample(&Vec::new(), &Ratio::from_int(-1), &Ratio::from_int(i64::MAX)).unwrap();
    assert!(d.points.is_empty());
}

#[test]
fn sample_on_an_empty_interval_stays_at_one_point() {
    let ys = ints(&[1, 2]);
    let at = Ratio::from_int(4);
    let c = sample(&ys, &at, &at).unwrap();
    assert_eq!(c.points[0].x, at);
    assert_eq!(c.points[1].x, at);
}

#[test]
fn sample_reports_what_does_not_fit() {
    let ys = ints(&[1, 2]);
    let r = sample(&ys, &Ratio::from_int(-1), &Ratio::from_int(i64::MAX));
    assert_eq!(r, Err(FittingError::Unrepresentable));
    // 1/3 of 1/i64::MAX
    let zs = ints(&[1, 2, 3]);
    let s = sample(&zs, &Ratio::from_int(0), &frac(1, i64::MAX));
    assert_eq!(s, Err(FittingError::Unrepresentable));
}
