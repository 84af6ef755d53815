//! Exact fractions in lowest terms.
//!
//! Texture coordinates are quotients of pixel counts. They are kept as
//! fractions in lowest terms with a positive denominator, so that two
//! coordinates are equal exactly when the quotients they stand for are.

use vstd::prelude::*;
use vstd::arithmetic::div_mod::{
    lemma_fundamental_div_mod,
    lemma_fundamental_div_mod_converse_div,
    lemma_fundamental_div_mod_converse_mod,
    lemma_truncate_middle,
};

verus! {

/// Greatest common divisor, by Euclid's recurrence; `gcd(a, 0) == a`.
pub open spec fn gcd(a: nat, b: nat) -> nat
    decreases b,
{
    if b == 0 {
        a
    } else {
        gcd(b, a % b)
    }
}

/// Absolute value as a natural number.
pub open spec fn magnitude(x: int) -> nat {
    if x >= 0 {
        x as nat
    } else {
        (-x) as nat
    }
}

/// A quotient of two integers: the mathematical value of a [`Ratio`].
pub struct Fraction {
    pub num: int,
    pub den: int,
}

impl Fraction {
    /// The denominator is positive and shares no factor with the numerator.
    pub open spec fn lowest_terms(self) -> bool {
        self.den > 0 && gcd(magnitude(self.num), self.den as nat) == 1
    }

    /// Both stand for the same quotient (for positive denominators).
    pub open spec fn same_value(self, other: Fraction) -> bool {
        self.num * other.den == other.num * self.den
    }

    /// The quotient of `self` is at most that of `other` (for positive
    /// denominators).
    pub open spec fn le(self, other: Fraction) -> bool {
        self.num * other.den <= other.num * self.den
    }
}

/// `num / den` in lowest terms, for a positive `den`: both are divided by
/// their greatest common divisor.
pub open spec fn reduce(num: int, den: int) -> Fraction {
    let g = gcd(magnitude(num), den as nat) as int;
    Fraction { num: num / g, den: den / g }
}

/// An exact fraction. A well-formed value is in lowest terms.
#[derive(Clone, Copy, Debug, PartialEq, Eq, Structural)]
pub struct Ratio {
    pub num: i64,
    pub den: u64,
}

impl View for Ratio {
    type V = Fraction;

    open spec fn view(&self) -> Fraction {
        Fraction { num: self.num as int, den: self.den as int }
    }
}

/// If `g` divides `x` and `y`, it divides `x * k + y` and `y - x * k`.
proof fn lemma_divides_combination(g: int, x: int, y: int, k: int)
    requires
        g > 0,
        x % g == 0,
        y % g == 0,
    ensures
        (x * k + y) % g == 0,
        (y - x * k) % g == 0,
{
    lemma_fundamental_div_mod(x, g);
    lemma_fundamental_div_mod(y, g);
    let xq = x / g;
    let yq = y / g;
    assert(x * k + y == (xq * k + yq) * g + 0) by (nonlinear_arith)
        requires
            x == g * xq,
            y == g * yq,
    ;
    assert(y - x * k == (yq - xq * k) * g + 0) by (nonlinear_arith)
        requires
            x == g * xq,
            y == g * yq,
    ;
    lemma_fundamental_div_mod_converse_mod(x * k + y, g, xq * k + yq, 0);
    lemma_fundamental_div_mod_converse_mod(y - x * k, g, yq - xq * k, 0);
}

/// The greatest common divisor of two numbers that are not both zero is
/// positive and divides both.
pub proof fn lemma_gcd_divides(a: nat, b: nat)
    requires
        a > 0 || b > 0,
    ensures
        gcd(a, b) > 0,
        a % gcd(a, b) == 0,
        b % gcd(a, b) == 0,
    decreases b,
{
    if b == 0 {
        lemma_fundamental_div_mod_converse_mod(a as int, a as int, 1, 0);
        lemma_fundamental_div_mod_converse_mod(0, a as int, 0, 0);
    } else {
        let r = a % b;
        lemma_gcd_divides(b, r);
        let g = gcd(b, r) as int;
        lemma_fundamental_div_mod(a as int, b as int);
        lemma_divides_combination(g, b as int, r as int, a as int / b as int);
    }
}

/// Every common divisor of two numbers divides their greatest common divisor.
pub proof fn lemma_gcd_greatest(a: nat, b: nat, d: nat)
    requires
        d > 0,
        a % d == 0,
        b % d == 0,
    ensures
        gcd(a, b) % d == 0,
    decreases b,
{
    if b != 0 {
        let r = a % b;
        lemma_fundamental_div_mod(a as int, b as int);
        lemma_divides_combination(d as int, b as int, a as int, a as int / b as int);
        lemma_gcd_greatest(b, r, d);
    }
}

/// A common factor can be taken out of a greatest common divisor.
pub proof fn lemma_gcd_scale(a: nat, b: nat, k: nat)
    requires
        k > 0,
    ensures
        gcd(k * a, k * b) == k * gcd(a, b),
    decreases b,
{
    if b == 0 {
        assert(k * b == 0) by (nonlinear_arith)
            requires
                b == 0,
        ;
    } else {
        lemma_truncate_middle(a as int, k as int, b as int);
        assert(k * b > 0);
        assert((k * a) % (k * b) == k * (a % b));
        lemma_gcd_scale(b, a % b, k);
    }
}

/// Every number is coprime to one.
pub proof fn lemma_gcd_one(a: nat)
    ensures
        gcd(a, 1) == 1,
{
    reveal_with_fuel(gcd, 3);
}

/// Where `x` is `q` times a positive `d`, `q` is the quotient `x / d`.
proof fn lemma_exact_quotient(x: int, d: int, q: int)
    requires
        d > 0,
        x == q * d,
    ensures
        x / d == q,
        x % d == 0,
{
    lemma_fundamental_div_mod_converse_div(x, d, q, 0);
    lemma_fundamental_div_mod_converse_mod(x, d, q, 0);
}

/// The parts of [`reduce`]: with `g` the greatest common divisor of
/// `|num|` and `den`, both are `g` times their reduced counterparts.
proof fn lemma_reduce_parts(num: int, den: int)
    requires
        den > 0,
    ensures
        ({
            let g = gcd(magnitude(num), den as nat) as int;
            let f = reduce(num, den);
            &&& g > 0
            &&& num == f.num * g
            &&& den == f.den * g
            &&& f.den > 0
            &&& magnitude(num) == magnitude(f.num) * g
        }),
{
    let m = magnitude(num);
    let g = gcd(m, den as nat) as int;
    lemma_gcd_divides(m, den as nat);
    lemma_fundamental_div_mod(m as int, g);
    lemma_fundamental_div_mod(den, g);
    let mq = m as int / g;
    let dq = den / g;
    assert(m == mq * g && den == dq * g) by (nonlinear_arith)
        requires
            m == g * mq,
            den == g * dq,
    ;
    assert(dq > 0 && mq >= 0) by (nonlinear_arith)
        requires
            den == dq * g,
            m == mq * g,
            den > 0,
            m >= 0,
            g > 0,
    ;
    if num >= 0 {
        assert(num / g == mq);
    } else {
        assert(num == (-mq) * g) by (nonlinear_arith)
            requires
                -num == mq * g,
        ;
        lemma_exact_quotient(num, g, -mq);
    }
}

/// [`reduce`] yields a fraction in lowest terms that stands for the same
/// quotient as `num / den`.
pub proof fn lemma_reduce_lowest_terms(num: int, den: int)
    requires
        den > 0,
    ensures
        reduce(num, den).lowest_terms(),
        reduce(num, den).same_value(Fraction { num, den }),
{
    let m = magnitude(num);
    let g = gcd(m, den as nat);
    let f = reduce(num, den);
    lemma_reduce_parts(num, den);
    let fm = magnitude(f.num);
    let fd = f.den as nat;
    lemma_gcd_scale(fm, fd, g);
    assert(g * fm == m && g * fd == den) by (nonlinear_arith)
        requires
            m == fm * g,
            den == fd * g,
    ;
    assert(gcd(fm, fd) == 1) by (nonlinear_arith)
        requires
            g == g * gcd(fm, fd),
            g > 0,
    ;
    assert(f.num * den == num * f.den) by (nonlinear_arith)
        requires
            num == f.num * g,
            den == f.den * g,
    ;
}

/// Scaling numerator and denominator by the same positive factor does not
/// change the reduced fraction.
pub proof fn lemma_reduce_scale(num: int, den: int, k: int)
    requires
        den > 0,
        k > 0,
    ensures
        reduce(k * num, k * den) == reduce(num, den),
{
    let m = magnitude(num);
    let g = gcd(m, den as nat) as int;
    let f = reduce(num, den);
    lemma_reduce_parts(num, den);
    assert(magnitude(k * num) == k * m && k * den > 0) by (nonlinear_arith)
        requires
            k > 0,
            den > 0,
            m == magnitude(num),
    ;
    lemma_gcd_scale(m, den as nat, k as nat);
    let kg = gcd(magnitude(k * num), (k * den) as nat) as int;
    assert(kg == k * g);
    assert(k * num == f.num * kg && k * den == f.den * kg && kg > 0) by (nonlinear_arith)
        requires
            num == f.num * g,
            den == f.den * g,
            kg == k * g,
            k > 0,
            g > 0,
    ;
    lemma_exact_quotient(k * num, kg, f.num);
    lemma_exact_quotient(k * den, kg, f.den);
}

/// A quotient has one representation in lowest terms: two fractions in
/// lowest terms that stand for the same quotient are the same fraction.
pub proof fn lemma_lowest_terms_unique(a: Fraction, b: Fraction)
    requires
        a.lowest_terms(),
        b.lowest_terms(),
        a.same_value(b),
    ensures
        a == b,
{
    let am = magnitude(a.num);
    let bm = magnitude(b.num);
    let ad = a.den as nat;
    let bd = b.den as nat;
    lemma_gcd_scale(am, ad, bd);
    lemma_gcd_scale(bm, bd, ad);
    assert(bd * am == ad * bm && bd * ad == ad * bd) by (nonlinear_arith)
        requires
            a.num * b.den == b.num * a.den,
            am == magnitude(a.num),
            bm == magnitude(b.num),
            ad == a.den,
            bd == b.den,
            a.den > 0,
            b.den > 0,
    ;
    assert(bd * 1 == ad * 1);
    assert(a.den == b.den);
    assert(a.num == b.num) by (nonlinear_arith)
        requires
            a.num * b.den == b.num * a.den,
            a.den == b.den,
            a.den > 0,
    ;
}

/// A fraction in lowest terms is its own reduction.
pub proof fn lemma_reduce_fixes_lowest_terms(f: Fraction)
    requires
        f.lowest_terms(),
    ensures
        reduce(f.num, f.den) == f,
{
    lemma_reduce_lowest_terms(f.num, f.den);
    lemma_lowest_terms_unique(reduce(f.num, f.den), f);
}

/// What a reduction is: where `p / q` is in lowest terms and stands for the
/// same quotient as `num / den`, it is the reduction of `num / den`.
pub proof fn lemma_reduce_value(num: int, den: int, p: int, q: int)
    requires
        den > 0,
        (Fraction { num: p, den: q }).lowest_terms(),
        p * den == num * q,
    ensures
        reduce(num, den) == (Fraction { num: p, den: q }),
{
    lemma_reduce_lowest_terms(num, den);
    let f = reduce(num, den);
    assert(f.num * q == p * f.den) by (nonlinear_arith)
        requires
            f.num * den == num * f.den,
            p * den == num * q,
            den > 0,
    ;
    lemma_lowest_terms_unique(f, Fraction { num: p, den: q });
}

/// Reduction keeps the order of quotients.
pub proof fn lemma_reduce_monotonic(a: int, b: int, den_a: int, den_b: int)
    requires
        den_a > 0,
        den_b > 0,
        a * den_b <= b * den_a,
    ensures
        reduce(a, den_a).le(reduce(b, den_b)),
{
    let fa = reduce(a, den_a);
    let fb = reduce(b, den_b);
    let ga = gcd(magnitude(a), den_a as nat) as int;
    let gb = gcd(magnitude(b), den_b as nat) as int;
    lemma_reduce_parts(a, den_a);
    lemma_reduce_parts(b, den_b);
    assert(fa.num * fb.den <= fb.num * fa.den) by (nonlinear_arith)
        requires
            a == fa.num * ga,
            den_a == fa.den * ga,
            b == fb.num * gb,
            den_b == fb.den * gb,
            ga > 0,
            gb > 0,
            a * den_b <= b * den_a,
    ;
}

/// Greatest common divisor of two machine integers.
pub fn greatest_common_divisor(a: u64, b: u64) -> (g: u64)
    ensures
        g == gcd(a as nat, b as nat),
{
    let mut x: u64 = a;
    let mut y: u64 = b;
    while y != 0
        invariant
            gcd(x as nat, y as nat) == gcd(a as nat, b as nat),
        decreases y,
    {
        let r: u64 = x % y;
        x = y;
        y = r;
    }
    x
}

impl Ratio {
    /// In lowest terms, with a positive denominator.
    pub open spec fn wf(&self) -> bool {
        self@.lowest_terms()
    }

    /// The fraction `num / den` in lowest terms.
    pub fn new(num: i64, den: u64) -> (ratio: Ratio)
        requires
            den > 0,
        ensures
            ratio@ == reduce(num as int, den as int),
            ratio.wf(),
            ratio@.same_value(Fraction { num: num as int, den: den as int }),
    {
        let size: u64 = if num >= 0 {
            num as u64
        } else {
            (-(num as i128)) as u64
        };
        let g: u64 = greatest_common_divisor(size, den);
        proof {
            lemma_reduce_parts(num as int, den as int);
            lemma_reduce_lowest_terms(num as int, den as int);
            let f = reduce(num as int, den as int);
            assert(magnitude(f.num) <= size) by (nonlinear_arith)
                requires
                    size == magnitude(f.num) * g,
                    g > 0,
            ;
            lemma_exact_quotient(size as int, g as int, magnitude(f.num) as int);
            assert(f.num < 0 <==> num < 0) by (nonlinear_arith)
                requires
                    num == f.num * g,
                    g > 0,
            ;
        }
        let quotient: u64 = size / g;
        let reduced: i64 = if num >= 0 {
            quotient as i64
        } else {
            (-(quotient as i128)) as i64
        };
        Ratio { num: reduced, den: den / g }
    }

    /// The whole number `value`, as a fraction.
    pub fn whole(value: i64) -> (ratio: Ratio)
        ensures
            ratio@ == (Fraction { num: value as int, den: 1 }),
            ratio.wf(),
    {
        proof {
            lemma_gcd_one(magnitude(value as int));
        }
        Ratio { num: value, den: 1 }
    }
}

} // verus!
