//! Number theory behind fractions in lowest terms: greatest common divisors,
//! Bezout coefficients, and the fact that a fraction in lowest terms has the
//! smallest numerator and denominator among all fractions of the same value.

use vstd::prelude::*;

verus! {

/// The greatest common divisor of two naturals, by Euclid's algorithm.
/// `gcd(0, 0)` is `0`.
pub open spec fn gcd(a: nat, b: nat) -> nat
    decreases b,
{
    if b == 0 {
        a
    } else {
        gcd(b, a % b)
    }
}

/// Two integers are coprime when some integer combination of them is one.
pub open spec fn coprime(a: int, b: int) -> bool {
    exists|x: int, y: int| #[trigger] bezout(a, b, x, y)
}

/// `x` and `y` are Bezout coefficients showing that `a` and `b` are coprime.
pub open spec fn bezout(a: int, b: int, x: int, y: int) -> bool {
    a * x + b * y == 1
}

/// The fraction `n / d` as a real number.
pub open spec fn frac(n: int, d: int) -> real {
    n as real / d as real
}

/// Casting to `real` commutes with multiplication.
pub proof fn lemma_real_of_product(a: int, b: int)
    ensures
        (a * b) as real == a as real * b as real,
{
    assert((a * b) as real == a as real * b as real) by (nonlinear_arith);
}

/// Two fractions are equal exactly when they agree after cross-multiplying.
pub proof fn lemma_frac_eq(a: int, b: int, c: int, d: int)
    requires
        b != 0,
        d != 0,
    ensures
        frac(a, b) == frac(c, d) <==> a * d == c * b,
{
    lemma_real_of_product(a, d);
    lemma_real_of_product(c, b);
    let ar = a as real;
    let br = b as real;
    let cr = c as real;
    let dr = d as real;
    assert((ar / br == cr / dr) <==> (ar * dr == cr * br)) by (nonlinear_arith)
        requires
            br != 0real,
            dr != 0real,
    ;
}

/// With positive denominators, fractions are ordered as their cross products.
pub proof fn lemma_frac_lt(a: int, b: int, c: int, d: int)
    requires
        b > 0,
        d > 0,
    ensures
        frac(a, b) < frac(c, d) <==> a * d < c * b,
        frac(a, b) <= frac(c, d) <==> a * d <= c * b,
{
    lemma_real_of_product(a, d);
    lemma_real_of_product(c, b);
    let ar = a as real;
    let br = b as real;
    let cr = c as real;
    let dr = d as real;
    assert((ar / br < cr / dr) <==> (ar * dr < cr * br)) by (nonlinear_arith)
        requires
            br > 0real,
            dr > 0real,
    ;
    assert((ar / br <= cr / dr) <==> (ar * dr <= cr * br)) by (nonlinear_arith)
        requires
            br > 0real,
            dr > 0real,
    ;
}

/// The sum and the difference of two fractions over their common denominator.
pub proof fn lemma_frac_add_sub(a: int, b: int, c: int, d: int)
    requires
        b != 0,
        d != 0,
    ensures
        b * d != 0,
        frac(a, b) + frac(c, d) == frac(a * d + c * b, b * d),
        frac(a, b) - frac(c, d) == frac(a * d - c * b, b * d),
{
    lemma_real_of_product(a, d);
    lemma_real_of_product(c, b);
    lemma_real_of_product(b, d);
    assert(b * d != 0) by (nonlinear_arith)
        requires
            b != 0,
            d != 0,
    ;
    let ar = a as real;
    let br = b as real;
    let cr = c as real;
    let dr = d as real;
    assert(ar / br + cr / dr == (ar * dr + cr * br) / (br * dr)) by (nonlinear_arith)
        requires
            br != 0real,
            dr != 0real,
    ;
    assert(ar / br - cr / dr == (ar * dr - cr * br) / (br * dr)) by (nonlinear_arith)
        requires
            br != 0real,
            dr != 0real,
    ;
}

/// The product of two fractions, and their quotient when the divisor is not
/// zero.
pub proof fn lemma_frac_mul_div(a: int, b: int, c: int, d: int)
    requires
        b != 0,
        d != 0,
    ensures
        b * d != 0,
        frac(a, b) * frac(c, d) == frac(a * c, b * d),
        c != 0 ==> b * c != 0 && frac(a, b) / frac(c, d) == frac(a * d, b * c),
        c == 0 <==> frac(c, d) == 0real,
{
    lemma_real_of_product(a, c);
    lemma_real_of_product(b, d);
    lemma_real_of_product(a, d);
    lemma_real_of_product(b, c);
    assert(b * d != 0) by (nonlinear_arith)
        requires
            b != 0,
            d != 0,
    ;
    let ar = a as real;
    let br = b as real;
    let cr = c as real;
    let dr = d as real;
    assert(ar / br * (cr / dr) == (ar * cr) / (br * dr)) by (nonlinear_arith)
        requires
            br != 0real,
            dr != 0real,
    ;
    assert((cr == 0real) <==> (cr / dr == 0real)) by (nonlinear_arith)
        requires
            dr != 0real,
    ;
    if c != 0 {
        assert(b * c != 0) by (nonlinear_arith)
            requires
                b != 0,
                c != 0,
        ;
        assert((ar / br) / (cr / dr) == (ar * dr) / (br * cr)) by (nonlinear_arith)
            requires
                br != 0real,
                cr != 0real,
                dr != 0real,
        ;
    }
}

/// Splits `a` and `b` into their greatest common divisor and two coprime
/// cofactors. Returns `(a', b', x, y)` with `a == gcd * a'`, `b == gcd * b'`
/// and `a' * x + b' * y == 1`.
pub proof fn lemma_gcd_cofactors(a: nat, b: nat) -> (w: (int, int, int, int))
    requires
        a > 0 || b > 0,
    ensures
        gcd(a, b) > 0,
        a == gcd(a, b) * w.0,
        b == gcd(a, b) * w.1,
        w.0 >= 0,
        w.1 >= 0,
        bezout(w.0, w.1, w.2, w.3),
    decreases b,
{
    if b == 0 {
        (1, 0, 1, 0)
    } else {
        let q = (a / b) as int;
        let r = a % b;
        let g = gcd(b, r) as int;
        let (b1, r1, x1, y1) = lemma_gcd_cofactors(b, r);
        assert(a == q * b + r) by (nonlinear_arith)
            requires
                b > 0,
                q == a / b,
                r == a % b,
        ;
        let a1 = q * b1 + r1;
        assert(a == g * a1) by (nonlinear_arith)
            requires
                a == q * b + r,
                b == g * b1,
                r == g * r1,
                a1 == q * b1 + r1,
        ;
        assert(a1 >= 0) by (nonlinear_arith)
            requires
                a == g * a1,
                g > 0,
                a >= 0,
        ;
        assert(a1 * y1 + b1 * (x1 - q * y1) == 1) by (nonlinear_arith)
            requires
                a1 == q * b1 + r1,
                b1 * x1 + r1 * y1 == 1,
        ;
        (a1, b1, y1, x1 - q * y1)
    }
}

/// A fraction `n0 / d0` in lowest terms divides every fraction `n / d` of the
/// same value: returns `k >= 1` with `n == k * n0` and `d == k * d0`.
pub proof fn lemma_lowest_terms_divide(n0: int, d0: int, n: int, d: int) -> (k: int)
    requires
        d0 > 0,
        d > 0,
        coprime(n0, d0),
        n * d0 == n0 * d,
    ensures
        k >= 1,
        n == k * n0,
        d == k * d0,
{
    let (x, y) = choose|x: int, y: int| #[trigger] bezout(n0, d0, x, y);
    let k = x * n + y * d;
    assert(d == k * d0 && n == k * n0) by (nonlinear_arith)
        requires
            n0 * x + d0 * y == 1,
            n * d0 == n0 * d,
            k == x * n + y * d,
    ;
    assert(k >= 1) by (nonlinear_arith)
        requires
            d == k * d0,
            d > 0,
            d0 > 0,
    ;
    k
}

/// Among all fractions of one value with a positive denominator, the one in
/// lowest terms has the smallest denominator and the numerator closest to zero.
pub proof fn lemma_lowest_terms_least(n0: int, d0: int, n: int, d: int)
    requires
        d0 > 0,
        d > 0,
        coprime(n0, d0),
        frac(n, d) == frac(n0, d0),
    ensures
        d0 <= d,
        n0 >= 0 ==> 0 <= n0 <= n,
        n0 <= 0 ==> n <= n0 <= 0,
{
    lemma_frac_eq(n, d, n0, d0);
    let k = lemma_lowest_terms_divide(n0, d0, n, d);
    assert(d0 <= d) by (nonlinear_arith)
        requires
            d == k * d0,
            k >= 1,
            d0 > 0,
    ;
    assert(n0 >= 0 ==> n0 <= n) by (nonlinear_arith)
        requires
            n == k * n0,
            k >= 1,
    ;
    assert(n0 <= 0 ==> n <= n0) by (nonlinear_arith)
        requires
            n == k * n0,
            k >= 1,
    ;
}

/// Two fractions in lowest terms with positive denominators and the same
/// value have the same numerator and the same denominator.
pub proof fn lemma_lowest_terms_unique(n0: int, d0: int, n1: int, d1: int)
    requires
        d0 > 0,
        d1 > 0,
        coprime(n0, d0),
        coprime(n1, d1),
        frac(n0, d0) == frac(n1, d1),
    ensures
        n0 == n1,
        d0 == d1,
{
    lemma_lowest_terms_least(n0, d0, n1, d1);
    lemma_lowest_terms_least(n1, d1, n0, d0);
}

} // verus!
