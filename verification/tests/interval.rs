use beta_fit::error::FittingError;
use beta_fit::interval::{
    confidence_percent, default_probabilities, report, valid_probabilities, ConfidenceInterval,
};
use beta_fit::rational::Ratio;

fn frac(num: i64, den: i64) -> Ratio {
    Ratio::new(num, den).unwrap()
}

#[test]
fn default_probabilities_frame_ninety_percent() {
    let (lower, upper) = default_probabilities();
    assert_eq!(lower, frac(1, 20));
    assert_eq!(upper, frac(19, 20));
    assert!(valid_probabilities(&lower, &upper));
    assert_eq!(confidence_percent(&lower, &upper), Some(Ratio::from_int(90)));
}

#[test]
fn probabilities_must_be_ordered_and_in_the_unit_interval() {
    assert!(valid_probabilities(&Ratio::from_int(0), &Ratio::from_int(1)));
    assert!(valid_probabilities(&frac(1, 2), &frac(1, 2)));
    assert!(!valid_probabilities(&frac(19, 20), &frac(1, 20)));
    assert!(!valid_probabilities(&frac(-1, 10), &frac(1, 2)));
    assert!(!valid_probabilities(&frac(1, 2), &frac(3, 2)));
}

#[test]
fn confidence_is_the_width_in_percent() {
    assert_eq!(confidence_percent(&frac(1, 4), &frac(3, 4)), Some(Ratio::from_int(50)));
    assert_eq!(confidence_percent(&frac(1, 40), &frac(39, 40)), Some(Ratio::from_int(95)));
    assert_eq!(confidence_percent(&frac(1, 3), &frac(1, 2)), Some(frac(50, 3)));
    assert_eq!(confidence_percent(&frac(1, 2), &frac(1, 2)), Some(Ratio::from_int(0)));
}

#[test]
fn confidence_reports_what_does_not_fit() {
    let huge = Ratio::from_int(i64::MAX);
    assert_eq!(confidence_percent(&Ratio::from_int(-1), &huge), None);
    assert_eq!(confidence_percent(&Ratio::from_int(0), &huge), None);
}

#[test]
fn report_maps_both_quantiles() {
    let r = report(&frac(1, 10), &frac(9, 10), &Ratio::from_int(2), &Ratio::from_int(4));
    assert_eq!(r, Ok(ConfidenceInterval { low: frac(11, 5), high: frac(19, 5) }));
}

#[test]
fn report_on_the_unit_interval_returns_the_quantiles() {
    let r = report(&frac(1, 3), &frac(2, 3), &Ratio::from_int(0), &Ratio::from_int(1));
    assert_eq!(r, Ok(ConfidenceInterval { low: frac(1, 3), high: frac(2, 3) }));
}

#[test]
fn report_keeps_the_order_of_the_quantiles() {
    let min = frac(-7, 2);
    let max = frac(9, 4);
    let qs = [Ratio::from_int(0), frac(1, 20), frac(1, 2), frac(19, 20), Ratio::from_int(1)];
    for a in 0..qs.len() {
        for b in a..qs.len() {
            let ci = report(&qs[a], &qs[b], &min, &max).unwrap();
            assert!(ci.low.le(&ci.high));
            assert!(min.le(&ci.low));
            assert!(ci.high.le(&max));
        }
    }
    let whole = report(&qs[0], &qs[4], &min, &max).unwrap();
    assert_eq!(whole, ConfidenceInterval { low: min, high: max });
}

#[test]
fn report_follows_the_scale_linearly() {
    let lower = frac(1, 4);
    let upper = frac(3, 5);
    let unit = report(&lower, &upper, &Ratio::from_int(0), &Ratio::from_int(1)).unwrap();
    // the interval doubled and moved up by three
    let moved = report(&lower, &upper, &Ratio::from_int(3), &Ratio::from_int(5)).unwrap();
    assert_eq!(unit, ConfidenceInterval { low: frac(1, 4), high: frac(3, 5) });
    assert_eq!(moved, ConfidenceInterval { low: frac(7, 2), high: frac(21, 5) });
}

#[test]
fn report_reports_what_does_not_fit() {
    let r = report(&frac(1, 3), &frac(2, 3), &Ratio::from_int(-1), &Ratio::from_int(i64::MAX));
    assert_eq!(r, Err(FittingError::Unrepresentable));
    // the lower end fits, the upper end does not
    let s = report(&Ratio::from_int(0), &frac(1, 3), &Ratio::from_int(0), &frac(1, i64::MAX));
    assert_eq!(s, Err(FittingError::Unrepresentable));
}
