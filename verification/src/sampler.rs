//! Sampling the density curve for plotting.
//!
//! The curve is sampled at `n` evenly spaced unit coordinates
//! `0, 1/n, ..., (n-1)/n`. The right end of the interval is never sampled:
//! the density of a Beta distribution may be unbounded there. The caller
//! evaluates the density at the coordinates that [`sample_positions`] gives
//! and hands the values to [`sample`], which places them on the caller's
//! scale and finds the highest of them.

use crate::error::FittingError;
use crate::lowest_terms::{bezout, coprime, frac, lemma_frac_lt, lemma_lowest_terms_least};
use crate::rational::{fits, representable, Ratio};
use crate::scaler::{
    lemma_original_scale_monotonic, lemma_original_scale_within, original_scale,
    original_scale_fits, to_original_scale,
};
use vstd::prelude::*;

verus! {

/// The number of samples of the customary curve.
pub const DEFAULT_RESOLUTION: u32 = 1000;

/// A point of the density curve: a position `x` on the caller's scale and
/// the density `y` of the fitted distribution there.
#[derive(Clone, Copy, Debug, PartialEq, Eq, Structural)]
pub struct CurvePoint {
    pub x: Ratio,
    pub y: Ratio,
}

/// The sampled density curve and its highest density, which serves as the
/// upper end of the plot's vertical axis. A curve without points has no peak.
#[derive(Clone, Debug, PartialEq, Eq)]
pub struct Curve {
    pub points: Vec<CurvePoint>,
    pub peak: Option<Ratio>,
}

/// The position, on the caller's scale, of sample `i` out of `n`.
pub open spec fn sample_x(i: int, n: int, min: real, max: real) -> real {
    original_scale(frac(i, n), min, max)
}

/// Every quantity computed for sample `i` out of `n` is representable.
pub open spec fn point_fits(i: int, n: int, min: real, max: real) -> bool {
    representable(frac(i, n)) && original_scale_fits(frac(i, n), min, max)
}

/// Every quantity computed for the `n` samples is representable.
pub open spec fn sample_fits(n: int, min: real, max: real) -> bool {
    forall|i: int| 0 <= i < n ==> #[trigger] point_fits(i, n, min, max)
}

/// `p` is the greatest of the values `ys`: it is one of them and none
/// exceeds it.
pub open spec fn is_peak(ys: Seq<Ratio>, p: real) -> bool {
    &&& exists|i: int| 0 <= i < ys.len() && (#[trigger] ys[i])@ == p
    &&& forall|i: int| 0 <= i < ys.len() ==> (#[trigger] ys[i])@ <= p
}

/// The points lie in strictly ascending order of `x`.
pub open spec fn ascending(points: Seq<CurvePoint>) -> bool {
    forall|i: int, j: int|
        0 <= i < j < points.len() ==> (#[trigger] points[i]).x@ < (#[trigger] points[j]).x@
}

/// The unit coordinates of the samples grow with the index and stay below
/// one.
pub proof fn lemma_positions_ascending(i: int, j: int, n: int)
    requires
        0 <= i < j < n,
    ensures
        frac(0, n) == 0real,
        0real <= frac(i, n) < frac(j, n) < 1real,
{
    lemma_frac_lt(i, n, j, n);
    lemma_frac_lt(j, n, 1, 1);
    lemma_frac_lt(0, 1, i, n);
    assert(frac(1, 1) == 1real) by (nonlinear_arith);
    assert(frac(0, 1) == 0real) by (nonlinear_arith);
    let nr = n as real;
    assert(0real / nr == 0real) by (nonlinear_arith)
        requires
            nr > 0real,
    ;
    assert(i * n < j * n) by (nonlinear_arith)
        requires
            i < j,
            n > 0,
    ;
}

/// On a proper interval the samples lie in strictly ascending order, start
/// at the lower bound and never reach the upper bound.
pub proof fn lemma_samples_ascending(i: int, j: int, n: int, min: real, max: real)
    requires
        0 <= i < j < n,
        min < max,
    ensures
        sample_x(0, n, min, max) == min,
        min <= sample_x(i, n, min, max) < sample_x(j, n, min, max) < max,
{
    lemma_positions_ascending(i, j, n);
    lemma_original_scale_within(frac(i, n), min, max);
    lemma_original_scale_monotonic(frac(i, n), frac(j, n), min, max);
    lemma_original_scale_monotonic(frac(j, n), 1real, min, max);
}

/// The unit coordinates `0, 1/n, ..., (n-1)/n` at which the density is to be
/// evaluated for a curve of `resolution` samples.
pub fn sample_positions(resolution: u32) -> (us: Vec<Ratio>)
    ensures
        us.len() == resolution,
        forall|i: int| 0 <= i < resolution ==> (#[trigger] us[i])@ == frac(i, resolution as int),
{
    let mut us: Vec<Ratio> = Vec::new();
    let mut i: u32 = 0;
    while i < resolution
        invariant
            i <= resolution,
            us.len() == i,
            forall|k: int| 0 <= k < i ==> (#[trigger] us[k])@ == frac(k, resolution as int),
        decreases resolution - i,
    {
        let u = Ratio::positive_fraction(i as i64, resolution as i64);
        us.push(u);
        i = i + 1;
    }
    us
}

/// With more samples than a 64-bit denominator can count, the coordinate of
/// the second sample is not representable.
proof fn lemma_too_many_samples(n: int, min: real, max: real)
    requires
        n > i64::MAX,
    ensures
        !sample_fits(n, min, max),
{
    if representable(frac(1, n)) {
        let (n2, d2) = choose|n2: int, d2: int| fits(n2, d2) && frac(1, n) == #[trigger] frac(n2, d2);
        assert(bezout(1, n, 1, 0));
        assert(coprime(1, n));
        lemma_lowest_terms_least(1, n, n2, d2);
    }
    assert(!point_fits(1, n, min, max));
}

/// The greater of the peak so far and the next density.
fn raise_peak(peak: Option<Ratio>, y: Ratio, Ghost(seen): Ghost<Seq<Ratio>>) -> (r: Ratio)
    requires
        match peak {
            Some(p) => is_peak(seen, p@),
            None => seen.len() == 0,
        },
    ensures
        is_peak(seen.push(y), r@),
{
    let ghost all = seen.push(y);
    match peak {
        None => {
            assert(all[0] == y);
            y
        },
        Some(p) => {
            let ghost k = choose|k: int| 0 <= k < seen.len() && (#[trigger] seen[k])@ == p@;
            if p.lt(&y) {
                assert(all[seen.len() as int] == y);
                assert forall|i: int| 0 <= i < all.len() implies (#[trigger] all[i])@ <= y@ by {
                    if i < seen.len() {
                        assert(all[i] == seen[i]);
                    }
                }
                y
            } else {
                assert(all[k] == seen[k]);
                assert forall|i: int| 0 <= i < all.len() implies (#[trigger] all[i])@ <= p@ by {
                    if i < seen.len() {
                        assert(all[i] == seen[i]);
                    }
                }
                p
            }
        },
    }
}

/// Builds the curve from the densities at the sample positions.
///
/// With `n` densities, point `i` lies at `(i / n) * (max - min) + min` and
/// has the density `densities[i]`; the peak is the greatest density. On a
/// proper interval the points are in strictly ascending order of `x`.
pub fn sample(densities: &Vec<Ratio>, min: &Ratio, max: &Ratio) -> (r: Result<
    Curve,
    FittingError,
>)
    ensures
        match r {
            Ok(c) => {
                &&& sample_fits(densities.len() as int, min@, max@)
                &&& c.points.len() == densities.len()
                &&& forall|i: int|
                    0 <= i < densities.len() ==> {
                        &&& (#[trigger] c.points[i]).x@ == sample_x(
                            i,
                            densities.len() as int,
                            min@,
                            max@,
                        )
                        &&& c.points[i].y == densities[i]
                    }
                &&& match c.peak {
                    Some(p) => is_peak(densities@, p@),
                    None => densities.len() == 0,
                }
                &&& min@ < max@ ==> ascending(c.points@)
            },
            Err(e) => {
                &&& e == FittingError::Unrepresentable
                &&& !sample_fits(densities.len() as int, min@, max@)
            },
        },
{
    let n = densities.len();
    if n as u128 > 0x7fff_ffff_ffff_ffff {
        proof {
            lemma_too_many_samples(n as int, min@, max@);
        }
        return Err(FittingError::Unrepresentable);
    }
    let mut points: Vec<CurvePoint> = Vec::new();
    let mut peak: Option<Ratio> = None;
    let mut i: usize = 0;
    while i < n
        invariant
            i <= n,
            n == densities.len(),
            n <= i64::MAX,
            points.len() == i,
            forall|k: int| 0 <= k < i ==> #[trigger] point_fits(k, n as int, min@, max@),
            forall|k: int|
                0 <= k < i ==> {
                    &&& (#[trigger] points[k]).x@ == sample_x(k, n as int, min@, max@)
                    &&& points[k].y == densities[k]
                },
            match peak {
                Some(p) => is_peak(densities@.take(i as int), p@),
                None => i == 0,
            },
        decreases n - i,
    {
        let u = Ratio::positive_fraction(i as i64, n as i64);
        let x = match to_original_scale(&u, min, max) {
            Ok(x) => x,
            Err(_) => {
                assert(!point_fits(i as int, n as int, min@, max@));
                return Err(FittingError::Unrepresentable);
            },
        };
        proof {
            assert(fits(i as int, n as int));
        }
        let y = densities[i];
        points.push(CurvePoint { x, y });
        peak = Some(raise_peak(peak, y, Ghost(densities@.take(i as int))));
        proof {
            assert(densities@.take(i as int).push(y) =~= densities@.take(i + 1));
        }
        i = i + 1;
    }
    proof {
        assert(densities@.take(n as int) =~= densities@);
        if min@ < max@ {
            assert forall|a: int, b: int| 0 <= a < b < points.len() implies (#[trigger] points[a]).x@
                < (#[trigger] points[b]).x@ by {
                lemma_samples_ascending(a, b, n as int, min@, max@);
            }
        }
    }
    Ok(Curve { points, peak })
}

} // verus!
