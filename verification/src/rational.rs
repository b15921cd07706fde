//! Exact rational numbers in lowest terms.
//!
//! A [`Ratio`] stands for a real number: its view is the quotient of its
//! numerator by its denominator. The arithmetic is checked: an operation
//! returns `None` exactly when its mathematical result is not
//! [`representable`], that is when no fraction with a numerator and a
//! denominator of 64 bits has that value.

use crate::lowest_terms::{
    bezout, coprime, frac, gcd, lemma_frac_add_sub, lemma_frac_eq, lemma_frac_lt,
    lemma_frac_mul_div, lemma_gcd_cofactors, lemma_lowest_terms_least,
    lemma_lowest_terms_unique,
};
use vstd::pervasive::unreached;
use vstd::prelude::*;

verus! {

/// A numerator and a positive denominator that both fit in 64 signed bits.
pub open spec fn fits(n: int, d: int) -> bool {
    i64::MIN <= n <= i64::MAX && 0 < d <= i64::MAX
}

/// The real number `x` is the value of some [`Ratio`].
pub open spec fn representable(x: real) -> bool {
    exists|n: int, d: int| fits(n, d) && x == #[trigger] frac(n, d)
}

/// A rational number, kept in lowest terms with a positive denominator.
///
/// Because the representation is canonical, two values are equal as real
/// numbers exactly when they are equal field by field.
#[derive(Clone, Copy, Debug, PartialEq, Eq, Structural)]
pub struct Ratio {
    num: i64,
    den: i64,
}

impl View for Ratio {
    type V = real;

    closed spec fn view(&self) -> real {
        frac(self.num as int, self.den as int)
    }
}

/// The product of a 64-bit integer and a positive 64-bit integer leaves room
/// in 128 bits for adding another such product.
proof fn lemma_product_bound(a: int, b: int)
    requires
        i64::MIN <= a <= i64::MAX,
        i64::MIN <= b <= i64::MAX,
    ensures
        -0x4000_0000_0000_0000_0000_0000_0000_0000 <= a * b
            <= 0x4000_0000_0000_0000_0000_0000_0000_0000,
        b > 0 ==> -0x3fff_ffff_ffff_ffff_8000_0000_0000_0000 <= a * b
            <= 0x3fff_ffff_ffff_ffff_8000_0000_0000_0000,
{
    assert(-0x4000_0000_0000_0000_0000_0000_0000_0000 <= a * b
        <= 0x4000_0000_0000_0000_0000_0000_0000_0000) by (nonlinear_arith)
        requires
            -0x8000_0000_0000_0000 <= a <= 0x7fff_ffff_ffff_ffff,
            -0x8000_0000_0000_0000 <= b <= 0x7fff_ffff_ffff_ffff,
    ;
    if b > 0 {
        assert(-0x3fff_ffff_ffff_ffff_8000_0000_0000_0000 <= a * b
            <= 0x3fff_ffff_ffff_ffff_8000_0000_0000_0000) by (nonlinear_arith)
            requires
                -0x8000_0000_0000_0000 <= a <= 0x7fff_ffff_ffff_ffff,
                0 < b <= 0x7fff_ffff_ffff_ffff,
        ;
    }
}

/// Euclid's algorithm.
fn gcd_u128(a: u128, b: u128) -> (g: u128)
    ensures
        g == gcd(a as nat, b as nat),
{
    let mut x = a;
    let mut y = b;
    while y != 0
        invariant
            gcd(x as nat, y as nat) == gcd(a as nat, b as nat),
        decreases y,
    {
        let r = x % y;
        x = y;
        y = r;
    }
    x
}

/// Brings `n / d` to lowest terms, or reports that no [`Ratio`] has its value.
fn reduce(n: i128, d: i128) -> (r: Option<Ratio>)
    requires
        d != 0,
        n > i128::MIN,
        d > i128::MIN,
    ensures
        match r {
            Some(q) => q@ == frac(n as int, d as int),
            None => !representable(frac(n as int, d as int)),
        },
{
    let negative = (n < 0) != (d < 0);
    let an: u128 = if n < 0 {
        (-n) as u128
    } else {
        n as u128
    };
    let ad: u128 = if d < 0 {
        (-d) as u128
    } else {
        d as u128
    };
    let g = gcd_u128(an, ad);
    let ghost (a1, b1, x, y) = lemma_gcd_cofactors(an as nat, ad as nat);
    let qn = an / g;
    let qd = ad / g;
    let ghost sn: int = if negative {
        -a1
    } else {
        a1
    };
    proof {
        assert(qn == a1 && qd == b1) by (nonlinear_arith)
            requires
                g > 0,
                an == g * a1,
                ad == g * b1,
                qn == an / g,
                qd == ad / g,
        ;
        assert(b1 > 0) by (nonlinear_arith)
            requires
                ad == g * b1,
                ad > 0,
                g > 0,
        ;
        assert(n * b1 == sn * d) by (nonlinear_arith)
            requires
                an == g * a1,
                ad == g * b1,
                n == an || n == -an,
                d == ad || d == -ad,
                (n < 0) == (n == -an && an > 0),
                (d < 0) == (d == -ad),
                sn == (if (n < 0) != (d < 0) {
                    -a1
                } else {
                    a1
                }),
        ;
        lemma_frac_eq(n as int, d as int, sn, b1);
        if negative {
            assert(bezout(sn, b1, -x, y)) by (nonlinear_arith)
                requires
                    a1 * x + b1 * y == 1,
                    sn == -a1,
            ;
        } else {
            assert(bezout(sn, b1, x, y));
        }
        assert(coprime(sn, b1));
        if representable(frac(n as int, d as int)) {
            let (n2, d2) = choose|n2: int, d2: int|
                fits(n2, d2) && frac(n as int, d as int) == #[trigger] frac(n2, d2);
            lemma_lowest_terms_least(sn, b1, n2, d2);
            assert(fits(sn, b1));
        }
    }
    if qd > 0x7fff_ffff_ffff_ffff {
        return None;
    }
    if negative {
        if qn > 0x8000_0000_0000_0000 {
            None
        } else {
            let num = (-(qn as i128)) as i64;
            Some(Ratio { num, den: qd as i64 })
        }
    } else {
        if qn > 0x7fff_ffff_ffff_ffff {
            None
        } else {
            Some(Ratio { num: qn as i64, den: qd as i64 })
        }
    }
}

/// The product `x * y` in two limbs: `x * y == hi * 2^64 + lo` with
/// `lo < 2^64`.
fn mul_wide(x: u128, y: u64) -> (r: (u128, u128))
    requires
        x <= 0x4000_0000_0000_0000_0000_0000_0000_0000,
        y <= 0x8000_0000_0000_0000,
    ensures
        x * y == r.0 * 0x1_0000_0000_0000_0000 + r.1,
        r.1 < 0x1_0000_0000_0000_0000,
{
    let xh = x / 0x1_0000_0000_0000_0000;
    let xl = x % 0x1_0000_0000_0000_0000;
    proof {
        assert(xh * y <= 0x2000_0000_0000_0000_0000_0000_0000_0000) by (nonlinear_arith)
            requires
                xh <= 0x4000_0000_0000_0000,
                y <= 0x8000_0000_0000_0000,
        ;
        assert(xl * y <= 0x7fff_ffff_ffff_ffff_8000_0000_0000_0000) by (nonlinear_arith)
            requires
                xl <= 0xffff_ffff_ffff_ffff,
                y <= 0x8000_0000_0000_0000,
        ;
        assert(x * y == (xh * y) * 0x1_0000_0000_0000_0000 + xl * y) by (nonlinear_arith)
            requires
                x == xh * 0x1_0000_0000_0000_0000 + xl,
        ;
    }
    let a = xh * (y as u128);
    let b = xl * (y as u128);
    (a + b / 0x1_0000_0000_0000_0000, b % 0x1_0000_0000_0000_0000)
}

/// Whether `a * b < c * d`, without computing either product in full.
fn product_lt(a: u128, b: u64, c: u128, d: u64) -> (r: bool)
    requires
        a <= 0x4000_0000_0000_0000_0000_0000_0000_0000,
        b <= 0x8000_0000_0000_0000,
        c <= 0x4000_0000_0000_0000_0000_0000_0000_0000,
        d <= 0x8000_0000_0000_0000,
    ensures
        r == (a * b < c * d),
{
    let (h1, l1) = mul_wide(a, b);
    let (h2, l2) = mul_wide(c, d);
    h1 < h2 || (h1 == h2 && l1 < l2)
}

/// The magnitude of a 64-bit integer.
fn magnitude(n: i64) -> (m: u64)
    ensures
        m == (if n < 0 {
            -n
        } else {
            n as int
        }),
{
    if n < 0 {
        (-(n as i128)) as u64
    } else {
        n as u64
    }
}

/// A non-negative representable number stays representable when one is
/// taken from it, and when it is taken from one.
pub proof fn lemma_representable_near_one(x: real)
    requires
        representable(x),
        x >= 0real,
    ensures
        representable(x - 1real),
        representable(1real - x),
{
    let (n, d) = choose|n: int, d: int| fits(n, d) && x == #[trigger] frac(n, d);
    assert(frac(0, 1) == 0real) by (nonlinear_arith);
    assert(frac(1, 1) == 1real) by (nonlinear_arith);
    lemma_frac_lt(0, 1, n, d);
    lemma_frac_add_sub(n, d, 1, 1);
    lemma_frac_add_sub(1, 1, n, d);
    assert(fits(n * 1 - 1 * d, d * 1));
    assert(fits(1 * d - n * 1, 1 * d));
}

impl Ratio {
    /// The representation invariant: a positive denominator, and numerator
    /// and denominator without a common factor.
    #[verifier::type_invariant]
    pub closed spec fn canonical(self) -> bool {
        self.den > 0 && coprime(self.num as int, self.den as int)
    }

    /// The numerator of the fraction in lowest terms.
    pub closed spec fn numerator(self) -> int {
        self.num as int
    }

    /// The denominator of the fraction in lowest terms.
    pub closed spec fn denominator(self) -> int {
        self.den as int
    }

    /// The value of a canonical [`Ratio`] is its numerator over its
    /// denominator, which are coprime and fit in 64 bits.
    pub proof fn lemma_lowest_terms(self)
        requires
            self.canonical(),
        ensures
            self@ == frac(self.numerator(), self.denominator()),
            fits(self.numerator(), self.denominator()),
            coprime(self.numerator(), self.denominator()),
            representable(self@),
    {
    }

    /// Canonical values are equal as real numbers exactly when they are the
    /// same value field by field.
    pub proof fn lemma_equal_views(self, other: Ratio)
        requires
            self.canonical(),
            other.canonical(),
        ensures
            (self@ == other@) <==> (self == other),
    {
        if self@ == other@ {
            lemma_lowest_terms_unique(
                self.num as int,
                self.den as int,
                other.num as int,
                other.den as int,
            );
        }
    }

    /// The fraction `num / den` in lowest terms. `None` when `den` is zero or
    /// when the value has no 64-bit representation (a numerator of `i64::MIN`
    /// over a negative denominator that does not cancel).
    pub fn new(num: i64, den: i64) -> (r: Option<Ratio>)
        ensures
            match r {
                Some(q) => den != 0 && q@ == frac(num as int, den as int),
                None => den == 0 || !representable(frac(num as int, den as int)),
            },
    {
        if den == 0 {
            None
        } else {
            reduce(num as i128, den as i128)
        }
    }

    /// The fraction `num / den` for a positive `den`, which always exists.
    pub(crate) fn positive_fraction(num: i64, den: i64) -> (r: Ratio)
        requires
            den > 0,
        ensures
            r@ == frac(num as int, den as int),
    {
        proof {
            assert(fits(num as int, den as int));
        }
        match Ratio::new(num, den) {
            Some(r) => r,
            None => unreached(),
        }
    }

    /// The integer `n` as a fraction.
    pub fn from_int(n: i64) -> (r: Ratio)
        ensures
            r@ == n as real,
    {
        proof {
            assert(bezout(n as int, 1, 0, 1));
            let x = n as real;
            assert(x / 1real == x) by (nonlinear_arith);
        }
        Ratio { num: n, den: 1 }
    }

    /// The numerator in lowest terms; it carries the sign.
    pub fn numer(&self) -> (n: i64)
        ensures
            n == self.numerator(),
            self@ == frac(self.numerator(), self.denominator()),
    {
        self.num
    }

    /// The denominator in lowest terms; it is positive.
    pub fn denom(&self) -> (d: i64)
        ensures
            d == self.denominator(),
            d > 0,
            coprime(self.numerator(), self.denominator()),
    {
        proof {
            use_type_invariant(self);
        }
        self.den
    }
    /// `self + rhs`, or `None` exactly when the sum is not representable.
    pub fn checked_add(&self, rhs: &Ratio) -> (r: Option<Ratio>)
        ensures
            match r {
                Some(q) => q@ == self@ + rhs@,
                None => !representable(self@ + rhs@),
            },
    {
        proof {
            use_type_invariant(self);
            use_type_invariant(rhs);
            lemma_product_bound(self.num as int, rhs.den as int);
            lemma_product_bound(rhs.num as int, self.den as int);
            lemma_product_bound(self.den as int, rhs.den as int);
            lemma_frac_add_sub(self.num as int, self.den as int, rhs.num as int, rhs.den as int);
        }
        let n = (self.num as i128) * (rhs.den as i128) + (rhs.num as i128) * (self.den as i128);
        let d = (self.den as i128) * (rhs.den as i128);
        reduce(n, d)
    }

    /// `self - rhs`, or `None` exactly when the difference is not
    /// representable.
    pub fn checked_sub(&self, rhs: &Ratio) -> (r: Option<Ratio>)
        ensures
            match r {
                Some(q) => q@ == self@ - rhs@,
                None => !representable(self@ - rhs@),
            },
    {
        proof {
            use_type_invariant(self);
            use_type_invariant(rhs);
            lemma_product_bound(self.num as int, rhs.den as int);
            lemma_product_bound(rhs.num as int, self.den as int);
            lemma_product_bound(self.den as int, rhs.den as int);
            lemma_frac_add_sub(self.num as int, self.den as int, rhs.num as int, rhs.den as int);
        }
        let n = (self.num as i128) * (rhs.den as i128) - (rhs.num as i128) * (self.den as i128);
        let d = (self.den as i128) * (rhs.den as i128);
        reduce(n, d)
    }

    /// `self * rhs`, or `None` exactly when the product is not representable.
    pub fn checked_mul(&self, rhs: &Ratio) -> (r: Option<Ratio>)
        ensures
            match r {
                Some(q) => q@ == self@ * rhs@,
                None => !representable(self@ * rhs@),
            },
    {
        proof {
            use_type_invariant(self);
            use_type_invariant(rhs);
            lemma_product_bound(self.num as int, rhs.num as int);
            lemma_product_bound(self.den as int, rhs.den as int);
            lemma_frac_mul_div(self.num as int, self.den as int, rhs.num as int, rhs.den as int);
        }
        let n = (self.num as i128) * (rhs.num as i128);
        let d = (self.den as i128) * (rhs.den as i128);
        reduce(n, d)
    }

    /// `self / rhs`, or `None` exactly when `rhs` is zero or the quotient is
    /// not representable.
    pub fn checked_div(&self, rhs: &Ratio) -> (r: Option<Ratio>)
        ensures
            match r {
                Some(q) => rhs@ != 0real && q@ == self@ / rhs@,
                None => rhs@ == 0real || !representable(self@ / rhs@),
            },
    {
        proof {
            use_type_invariant(self);
            use_type_invariant(rhs);
            lemma_product_bound(self.num as int, rhs.den as int);
            lemma_product_bound(self.den as int, rhs.num as int);
            lemma_frac_mul_div(self.num as int, self.den as int, rhs.num as int, rhs.den as int);
        }
        if rhs.num == 0 {
            return None;
        }
        let n = (self.num as i128) * (rhs.den as i128);
        let d = (self.den as i128) * (rhs.num as i128);
        reduce(n, d)
    }

    /// Whether `self` is strictly less than `rhs`.
    pub fn lt(&self, rhs: &Ratio) -> (b: bool)
        ensures
            b == (self@ < rhs@),
    {
        proof {
            use_type_invariant(self);
            use_type_invariant(rhs);
            lemma_product_bound(self.num as int, rhs.den as int);
            lemma_product_bound(rhs.num as int, self.den as int);
            lemma_frac_lt(self.num as int, self.den as int, rhs.num as int, rhs.den as int);
        }
        (self.num as i128) * (rhs.den as i128) < (rhs.num as i128) * (self.den as i128)
    }

    /// Whether `self` is less than or equal to `rhs`.
    pub fn le(&self, rhs: &Ratio) -> (b: bool)
        ensures
            b == (self@ <= rhs@),
    {
        proof {
            use_type_invariant(self);
            use_type_invariant(rhs);
            lemma_product_bound(self.num as int, rhs.den as int);
            lemma_product_bound(rhs.num as int, self.den as int);
            lemma_frac_lt(self.num as int, self.den as int, rhs.num as int, rhs.den as int);
        }
        (self.num as i128) * (rhs.den as i128) <= (rhs.num as i128) * (self.den as i128)
    }

    /// Whether `self` and `rhs` are the same number. Agrees with `==`.
    pub fn equals(&self, rhs: &Ratio) -> (b: bool)
        ensures
            b == (self@ == rhs@),
            b == (*self == *rhs),
    {
        proof {
            use_type_invariant(self);
            use_type_invariant(rhs);
            self.lemma_equal_views(*rhs);
        }
        self.num == rhs.num && self.den == rhs.den
    }

    /// Whether `self` is strictly less than the product `a * b`. The
    /// product itself need not be representable.
    pub fn lt_product(&self, a: &Ratio, b: &Ratio) -> (r: bool)
        ensures
            r == (self@ < a@ * b@),
    {
        proof {
            use_type_invariant(self);
            use_type_invariant(a);
            use_type_invariant(b);
            lemma_product_bound(a.num as int, b.num as int);
            lemma_product_bound(a.den as int, b.den as int);
            lemma_frac_mul_div(a.num as int, a.den as int, b.num as int, b.den as int);
            assert(a.den * b.den > 0) by (nonlinear_arith)
                requires
                    a.den > 0,
                    b.den > 0,
            ;
            lemma_frac_lt(
                self.num as int,
                self.den as int,
                a.num * b.num,
                a.den * b.den,
            );
        }
        let n: i128 = (a.num as i128) * (b.num as i128);
        let d: u128 = ((a.den as i128) * (b.den as i128)) as u128;
        let p = magnitude(self.num);
        let q = self.den as u64;
        if self.num < 0 {
            if n >= 0 {
                proof {
                    assert(self.num * d < 0 && n * self.den >= 0) by (nonlinear_arith)
                        requires
                            self.num < 0,
                            d > 0,
                            n >= 0,
                            self.den > 0,
                    ;
                }
                true
            } else {
                proof {
                    assert(self.num * d == -(p * d) && n * self.den == -((-n) * q))
                        by (nonlinear_arith)
                        requires
                            p == -self.num,
                            q == self.den,
                    ;
                }
                product_lt((-n) as u128, q, d, p)
            }
        } else {
            if n <= 0 {
                proof {
                    assert(self.num * d >= 0 && n * self.den <= 0) by (nonlinear_arith)
                        requires
                            self.num >= 0,
                            d > 0,
                            n <= 0,
                            self.den > 0,
                    ;
                }
                false
            } else {
                product_lt(d, p, n as u128, q)
            }
        }
    }

    /// Whether `self` is zero.
    pub fn is_zero(&self) -> (b: bool)
        ensures
            b == (self@ == 0real),
    {
        proof {
            use_type_invariant(self);
            lemma_frac_mul_div(0, 1, self.num as int, self.den as int);
        }
        self.num == 0
    }

    /// Whether `self` is strictly positive.
    pub fn is_positive(&self) -> (b: bool)
        ensures
            b == (self@ > 0real),
    {
        proof {
            use_type_invariant(self);
            lemma_frac_lt(0, 1, self.num as int, self.den as int);
            assert(frac(0, 1) == 0real) by (nonlinear_arith);
        }
        self.num > 0
    }
}

} // verus!
