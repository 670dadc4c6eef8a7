//! Exact rational arithmetic for gas-planning quantities.
//!
//! A [`Rat`] is a fraction of two `i64` values with a positive denominator.
//! Results of arithmetic are reduced to lowest terms with a gcd; a result
//! whose reduced numerator or denominator does not fit in `i64` is reported
//! as [`RockBottomError::ConversionFailure`] rather than rounded.
//!
//! Contracts speak about the mathematical fraction [`Frac`] (unbounded
//! integers). `q_eq` is equality of the represented rational numbers,
//! `q_norm` the reduction to lowest terms, and the `n_*` functions are the
//! checked operations that the executable methods implement exactly.

use crate::RockBottomError;
use vstd::arithmetic::div_mod::{
    lemma_add_mod_noop, lemma_div_multiples_vanish, lemma_fundamental_div_mod,
    lemma_mod_self_0, lemma_mul_mod_noop_left, lemma_small_mod,
};
use vstd::arithmetic::mul::lemma_mul_is_distributive_add_other_way;
use vstd::prelude::*;

verus! {

/// A mathematical fraction: `num / den`. Meaningful when `den >= 1`.
pub ghost struct Frac {
    pub num: int,
    pub den: int,
}

/// Absolute value of an integer.
pub open spec fn q_abs(i: int) -> int {
    if i >= 0 {
        i
    } else {
        -i
    }
}

/// Greatest common divisor, by Euclid's algorithm.
pub open spec fn sgcd(a: nat, b: nat) -> nat
    decreases b,
{
    if b == 0 {
        a
    } else {
        sgcd(b, a % b)
    }
}

/// The fraction reduced to lowest terms (for `den >= 1`).
pub open spec fn q_norm(q: Frac) -> Frac {
    let g = sgcd(q_abs(q.num) as nat, q.den as nat) as int;
    Frac { num: q.num / g, den: q.den / g }
}

/// Whether a fraction is representable as a `Rat`: denominator in
/// `1 ..= i64::MAX`, numerator of magnitude at most `i64::MAX`.
pub open spec fn q_fits(q: Frac) -> bool {
    &&& -(i64::MAX as int) <= q.num <= i64::MAX as int
    &&& 1 <= q.den <= i64::MAX as int
}

/// A fraction with both components of magnitude at most 2^20: the size
/// admitted for raw inputs (depths, gas fractions, breathing rates).
pub open spec fn q_modest(q: Frac) -> bool {
    &&& -0x10_0000 <= q.num <= 0x10_0000
    &&& 1 <= q.den <= 0x10_0000
}

/// A fraction with both components of magnitude at most 2^27: large enough
/// for every intermediate depth handed to the pressure formulas.
pub open spec fn q_small(q: Frac) -> bool {
    &&& -0x800_0000 <= q.num <= 0x800_0000
    &&& 1 <= q.den <= 0x800_0000
}

/// Equality of the represented rational numbers (for positive denominators).
pub open spec fn q_eq(a: Frac, b: Frac) -> bool {
    a.num * b.den == b.num * a.den
}

/// Order on the represented rational numbers (for positive denominators).
pub open spec fn q_le(a: Frac, b: Frac) -> bool {
    a.num * b.den <= b.num * a.den
}

/// Exact sum.
pub open spec fn q_add(a: Frac, b: Frac) -> Frac {
    Frac { num: a.num * b.den + b.num * a.den, den: a.den * b.den }
}

/// Exact difference.
pub open spec fn q_sub(a: Frac, b: Frac) -> Frac {
    Frac { num: a.num * b.den - b.num * a.den, den: a.den * b.den }
}

/// Exact product.
pub open spec fn q_mul(a: Frac, b: Frac) -> Frac {
    Frac { num: a.num * b.num, den: a.den * b.den }
}

/// Exact quotient, with the sign moved into the numerator.
pub open spec fn q_div(a: Frac, b: Frac) -> Frac {
    if b.num >= 0 {
        Frac { num: a.num * b.den, den: a.den * b.num }
    } else {
        Frac { num: -(a.num * b.den), den: -(a.den * b.num) }
    }
}

/// Reduction to lowest terms, `None` when the reduced form does not fit.
pub open spec fn n_norm(q: Frac) -> Option<Frac> {
    if q_fits(q_norm(q)) {
        Some(q_norm(q))
    } else {
        None
    }
}

/// Checked sum: the reduced exact sum, when representable.
pub open spec fn n_add(a: Frac, b: Frac) -> Option<Frac> {
    n_norm(q_add(a, b))
}

/// Checked difference.
pub open spec fn n_sub(a: Frac, b: Frac) -> Option<Frac> {
    n_norm(q_sub(a, b))
}

/// Checked product.
pub open spec fn n_mul(a: Frac, b: Frac) -> Option<Frac> {
    n_norm(q_mul(a, b))
}

/// Checked quotient; `None` on a zero divisor.
pub open spec fn n_div(a: Frac, b: Frac) -> Option<Frac> {
    if b.num == 0 {
        None
    } else {
        n_norm(q_div(a, b))
    }
}

/// Euclid's gcd divides both arguments and is positive when one is.
pub proof fn lemma_sgcd_props(a: nat, b: nat)
    requires
        a > 0 || b > 0,
    ensures
        sgcd(a, b) >= 1,
        a % sgcd(a, b) == 0,
        b % sgcd(a, b) == 0,
    decreases b,
{
    if b == 0 {
        assert(sgcd(a, b) == a);
        lemma_mod_self_0(a as int);
        lemma_small_mod(0, a);
    } else {
        lemma_sgcd_props(b, a % b);
        let g = sgcd(b, a % b) as int;
        assert(sgcd(a, b) == sgcd(b, a % b));
        let ai = a as int;
        let bi = b as int;
        lemma_fundamental_div_mod(ai, bi);
        assert(ai == bi * (ai / bi) + ai % bi);
        lemma_mul_mod_noop_left(bi, ai / bi, g);
        lemma_small_mod(0, g as nat);
        assert((bi * (ai / bi)) % g == 0);
        lemma_add_mod_noop(bi * (ai / bi), ai % bi, g);
        assert(ai % g == 0);
    }
}

/// Reduction to lowest terms keeps the value, the sign, and the bounds.
pub proof fn lemma_norm_props(q: Frac)
    requires
        q.den >= 1,
    ensures
        q_eq(q_norm(q), q),
        1 <= q_norm(q).den <= q.den,
        q_abs(q_norm(q).num) <= q_abs(q.num),
        (q_norm(q).num > 0) <==> (q.num > 0),
        (q_norm(q).num < 0) <==> (q.num < 0),
{
    let m = q_abs(q.num);
    let d = q.den;
    lemma_sgcd_props(m as nat, d as nat);
    let g = sgcd(m as nat, d as nat) as int;
    lemma_fundamental_div_mod(m, g);
    lemma_fundamental_div_mod(d, g);
    let m2 = m / g;
    let d2 = d / g;
    assert(m == g * m2);
    assert(d == g * d2);
    assert(d2 >= 1) by (nonlinear_arith)
        requires
            d == g * d2,
            d >= 1,
            g >= 1,
    ;
    assert(d2 <= d) by (nonlinear_arith)
        requires
            d == g * d2,
            g >= 1,
            d2 >= 1,
    ;
    assert(m2 >= 0) by (nonlinear_arith)
        requires
            m == g * m2,
            m >= 0,
            g >= 1,
    ;
    assert(m2 <= m) by (nonlinear_arith)
        requires
            m == g * m2,
            g >= 1,
            m2 >= 0,
    ;
    assert((m2 > 0) <==> (m > 0)) by (nonlinear_arith)
        requires
            m == g * m2,
            g >= 1,
    ;
    if q.num >= 0 {
        assert(q_norm(q) == Frac { num: m2, den: d2 });
        assert(m2 * d == m * d2) by (nonlinear_arith)
            requires
                m == g * m2,
                d == g * d2,
        ;
    } else {
        assert(q.num == -m);
        lemma_div_multiples_vanish(-m2, g);
        assert(g * (-m2) == -(g * m2)) by (nonlinear_arith);
        assert(q.num / g == -m2);
        assert(q_norm(q) == Frac { num: -m2, den: d2 });
        assert((-m2) * d == (-m) * d2) by (nonlinear_arith)
            requires
                m == g * m2,
                d == g * d2,
        ;
    }
}

/// A product of two values of `i64` magnitude stays well inside `i128`.
pub proof fn lemma_i64_mul_fits(x: int, y: int)
    by (nonlinear_arith)
    requires
        -(i64::MAX as int) <= x <= i64::MAX as int,
        -(i64::MAX as int) <= y <= i64::MAX as int,
    ensures
        -((i64::MAX as int) * (i64::MAX as int)) <= x * y,
        x * y <= (i64::MAX as int) * (i64::MAX as int),
        (i64::MAX as int) * (i64::MAX as int) < (i128::MAX as int) / 2,
{
}

/// Bounds on a product from bounds on its factors.
pub proof fn lemma_mul_bounds(x: int, y: int, xb: int, yb: int)
    by (nonlinear_arith)
    requires
        0 <= xb,
        0 <= yb,
        -xb <= x <= xb,
        -yb <= y <= yb,
    ensures
        -(xb * yb) <= x * y <= xb * yb,
{
}

/// A product of two positive values of `i64` size is positive.
pub proof fn lemma_pos_mul_pos(x: int, y: int)
    by (nonlinear_arith)
    requires
        1 <= x,
        1 <= y,
    ensures
        1 <= x * y,
{
}

/// Rational equality is transitive across a middle term with positive
/// denominator.
pub proof fn lemma_q_eq_trans(a: Frac, b: Frac, c: Frac)
    by (nonlinear_arith)
    requires
        1 <= b.den,
        q_eq(a, b),
        q_eq(b, c),
    ensures
        q_eq(a, c),
{
}

/// The order on rationals is transitive.
pub proof fn lemma_q_le_trans(a: Frac, b: Frac, c: Frac)
    by (nonlinear_arith)
    requires
        1 <= a.den,
        1 <= b.den,
        1 <= c.den,
        q_le(a, b),
        q_le(b, c),
    ensures
        q_le(a, c),
{
}

/// Multiplication respects rational equality (left argument).
pub proof fn lemma_q_mul_eq(a: Frac, a2: Frac, b: Frac)
    by (nonlinear_arith)
    requires
        q_eq(a, a2),
    ensures
        q_eq(q_mul(a, b), q_mul(a2, b)),
{
}

/// Multiplication respects rational equality (right argument).
pub proof fn lemma_q_mul_eq_right(a: Frac, b: Frac, b2: Frac)
    by (nonlinear_arith)
    requires
        q_eq(b, b2),
    ensures
        q_eq(q_mul(a, b), q_mul(a, b2)),
{
}

/// Addition respects rational equality (left argument).
pub proof fn lemma_q_add_eq(a: Frac, a2: Frac, b: Frac)
    requires
        q_eq(a, a2),
    ensures
        q_eq(q_add(a, b), q_add(a2, b)),
{
    let an = a.num;
    let ad = a.den;
    let a2n = a2.num;
    let a2d = a2.den;
    let bn = b.num;
    let bd = b.den;
    lemma_mul_is_distributive_add_other_way(a2d * bd, an * bd, bn * ad);
    lemma_mul_is_distributive_add_other_way(ad * bd, a2n * bd, bn * a2d);
    assert((an * bd) * (a2d * bd) == (an * a2d) * (bd * bd)) by (nonlinear_arith);
    assert((bn * ad) * (a2d * bd) == (bn * bd) * (ad * a2d)) by (nonlinear_arith);
    assert((a2n * bd) * (ad * bd) == (a2n * ad) * (bd * bd)) by (nonlinear_arith);
    assert((bn * a2d) * (ad * bd) == (bn * bd) * (ad * a2d)) by (nonlinear_arith);
    assert((an * a2d) * (bd * bd) == (a2n * ad) * (bd * bd));
}

/// Addition respects rational equality (right argument).
pub proof fn lemma_q_add_eq_right(a: Frac, b: Frac, b2: Frac)
    requires
        q_eq(b, b2),
    ensures
        q_eq(q_add(a, b), q_add(a, b2)),
{
    let an = a.num;
    let ad = a.den;
    let bn = b.num;
    let bd = b.den;
    let b2n = b2.num;
    let b2d = b2.den;
    lemma_mul_is_distributive_add_other_way(ad * b2d, an * bd, bn * ad);
    lemma_mul_is_distributive_add_other_way(ad * bd, an * b2d, b2n * ad);
    assert((an * bd) * (ad * b2d) == (an * b2d) * (ad * bd)) by (nonlinear_arith);
    assert((bn * ad) * (ad * b2d) == (bn * b2d) * (ad * ad)) by (nonlinear_arith);
    assert((b2n * ad) * (ad * bd) == (b2n * bd) * (ad * ad)) by (nonlinear_arith);
    assert((bn * b2d) * (ad * ad) == (b2n * bd) * (ad * ad));
}

/// An exact rational number: `num / den` with `den >= 1`.
///
/// Build values with [`Rat::new`]; the arithmetic methods keep `q_fits` of
/// the view, which every contract assumes.
#[derive(Clone, Copy, Debug, PartialEq, Eq, Structural)]
pub struct Rat {
    pub num: i64,
    pub den: i64,
}

impl View for Rat {
    type V = Frac;

    open spec fn view(&self) -> Frac {
        Frac { num: self.num as int, den: self.den as int }
    }
}

/// Euclid's algorithm.
fn gcd_u128(a0: u128, b0: u128) -> (g: u128)
    ensures
        g as nat == sgcd(a0 as nat, b0 as nat),
{
    let mut a = a0;
    let mut b = b0;
    while b != 0
        invariant
            sgcd(a as nat, b as nat) == sgcd(a0 as nat, b0 as nat),
        decreases b,
    {
        let t = a % b;
        a = b;
        b = t;
    }
    assert(sgcd(a as nat, 0) == a as nat);
    a
}

/// Builds the reduced `Rat` for `n / d`, or reports that the reduced form
/// does not fit in `i64`.
pub(crate) fn make_rat(n: i128, d: i128) -> (r: Result<Rat, RockBottomError>)
    requires
        1 <= d,
        i128::MIN < n,
    ensures
        (r is Ok) == q_fits(q_norm(Frac { num: n as int, den: d as int })),
        r matches Ok(t) ==> t@ == q_norm(Frac { num: n as int, den: d as int }),
        r matches Ok(t) ==> q_eq(t@, Frac { num: n as int, den: d as int }) && q_fits(t@),
        r matches Ok(t) ==> q_abs(t@.num) <= q_abs(n as int) && t@.den <= d as int,
        r matches Ok(t) ==> ((t@.num > 0) <==> (n > 0)) && ((t@.num < 0) <==> (n < 0)),
        r matches Err(e) ==> e == RockBottomError::ConversionFailure,
{
    let ghost qq = Frac { num: n as int, den: d as int };
    let neg = n < 0;
    let m: u128 = if neg {
        (-n) as u128
    } else {
        n as u128
    };
    let du: u128 = d as u128;
    assert(m as int == q_abs(n as int));
    let g = gcd_u128(m, du);
    proof {
        lemma_sgcd_props(m as nat, du as nat);
        lemma_norm_props(qq);
    }
    let m2 = m / g;
    let d2 = du / g;
    proof {
        let gi = g as int;
        assert(q_norm(qq).den == d2 as int);
        if n >= 0 {
            assert(q_norm(qq).num == m2 as int);
        } else {
            lemma_fundamental_div_mod(m as int, gi);
            assert(m as int == gi * ((m as int) / gi));
            lemma_div_multiples_vanish(-((m as int) / gi), gi);
            assert(gi * (-((m as int) / gi)) == -(gi * ((m as int) / gi))) by (nonlinear_arith);
            assert((n as int) / gi == -(m2 as int));
            assert(q_norm(qq).num == -(m2 as int));
        }
    }
    if m2 <= i64::MAX as u128 && d2 <= i64::MAX as u128 {
        let num: i64 = if neg {
            -(m2 as i64)
        } else {
            m2 as i64
        };
        let t = Rat { num, den: d2 as i64 };
        assert(t@ == q_norm(qq));
        Ok(t)
    } else {
        assert(!q_fits(q_norm(qq)));
        Err(RockBottomError::ConversionFailure)
    }
}

impl Rat {
    /// The reduced rational `num / den`; `None` when `den < 1` or when the
    /// reduced form does not fit.
    pub fn new(num: i64, den: i64) -> (r: Option<Rat>)
        ensures
            (r is Some) == (den >= 1 && q_fits(q_norm(Frac { num: num as int, den: den as int }))),
            r matches Some(t) ==> t@ == q_norm(Frac { num: num as int, den: den as int }),
            r matches Some(t) ==> q_eq(t@, Frac { num: num as int, den: den as int }) && q_fits(
                t@,
            ),
    {
        if den >= 1 {
            match make_rat(num as i128, den as i128) {
                Ok(t) => Some(t),
                Err(_) => None,
            }
        } else {
            None
        }
    }

    /// Checked, exact addition.
    pub fn add(self, other: Rat) -> (r: Result<Rat, RockBottomError>)
        requires
            q_fits(self@),
            q_fits(other@),
        ensures
            (r is Ok) == (n_add(self@, other@) is Some),
            r matches Ok(t) ==> n_add(self@, other@) == Some(t@) && q_fits(t@) && q_eq(
                t@,
                q_add(self@, other@),
            ),
            r matches Ok(t) ==> q_abs(t@.num) <= q_abs(q_add(self@, other@).num) && t@.den <= q_add(
                self@,
                other@,
            ).den,
            r matches Err(e) ==> e == RockBottomError::ConversionFailure,
    {
        proof {
            lemma_i64_mul_fits(self.num as int, other.den as int);
            lemma_i64_mul_fits(other.num as int, self.den as int);
            lemma_i64_mul_fits(self.den as int, other.den as int);
            lemma_pos_mul_pos(self.den as int, other.den as int);
        }
        let n: i128 = (self.num as i128) * (other.den as i128) + (other.num as i128) * (self.den
            as i128);
        let d: i128 = (self.den as i128) * (other.den as i128);
        make_rat(n, d)
    }

    /// Checked, exact subtraction.
    pub fn sub(self, other: Rat) -> (r: Result<Rat, RockBottomError>)
        requires
            q_fits(self@),
            q_fits(other@),
        ensures
            (r is Ok) == (n_sub(self@, other@) is Some),
            r matches Ok(t) ==> n_sub(self@, other@) == Some(t@) && q_fits(t@) && q_eq(
                t@,
                q_sub(self@, other@),
            ),
            r matches Ok(t) ==> q_abs(t@.num) <= q_abs(q_sub(self@, other@).num) && t@.den <= q_sub(
                self@,
                other@,
            ).den,
            r matches Err(e) ==> e == RockBottomError::ConversionFailure,
    {
        proof {
            lemma_i64_mul_fits(self.num as int, other.den as int);
            lemma_i64_mul_fits(other.num as int, self.den as int);
            lemma_i64_mul_fits(self.den as int, other.den as int);
            lemma_pos_mul_pos(self.den as int, other.den as int);
        }
        let n: i128 = (self.num as i128) * (other.den as i128) - (other.num as i128) * (self.den
            as i128);
        let d: i128 = (self.den as i128) * (other.den as i128);
        make_rat(n, d)
    }

    /// Checked, exact multiplication.
    pub fn mul(self, other: Rat) -> (r: Result<Rat, RockBottomError>)
        requires
            q_fits(self@),
            q_fits(other@),
        ensures
            (r is Ok) == (n_mul(self@, other@) is Some),
            r matches Ok(t) ==> n_mul(self@, other@) == Some(t@) && q_fits(t@) && q_eq(
                t@,
                q_mul(self@, other@),
            ),
            r matches Ok(t) ==> q_abs(t@.num) <= q_abs(q_mul(self@, other@).num) && t@.den <= q_mul(
                self@,
                other@,
            ).den,
            r matches Err(e) ==> e == RockBottomError::ConversionFailure,
    {
        proof {
            lemma_i64_mul_fits(self.num as int, other.num as int);
            lemma_i64_mul_fits(self.den as int, other.den as int);
            lemma_pos_mul_pos(self.den as int, other.den as int);
        }
        let n: i128 = (self.num as i128) * (other.num as i128);
        let d: i128 = (self.den as i128) * (other.den as i128);
        make_rat(n, d)
    }

    /// Checked, exact division by a non-zero rational.
    pub fn div(self, other: Rat) -> (r: Result<Rat, RockBottomError>)
        requires
            q_fits(self@),
            q_fits(other@),
            other@.num != 0,
        ensures
            (r is Ok) == (n_div(self@, other@) is Some),
            r matches Ok(t) ==> n_div(self@, other@) == Some(t@) && q_fits(t@) && q_eq(
                t@,
                q_div(self@, other@),
            ),
            r matches Ok(t) ==> q_abs(t@.num) <= q_abs(q_div(self@, other@).num) && t@.den <= q_div(
                self@,
                other@,
            ).den,
            r matches Err(e) ==> e == RockBottomError::ConversionFailure,
    {
        proof {
            lemma_i64_mul_fits(self.num as int, other.den as int);
            lemma_i64_mul_fits(self.den as int, other.num as int);
        }
        let n0: i128 = (self.num as i128) * (other.den as i128);
        let d0: i128 = (self.den as i128) * (other.num as i128);
        proof {
            if other.num > 0 {
                lemma_pos_mul_pos(self.den as int, other.num as int);
            } else {
                lemma_pos_mul_pos(self.den as int, -(other.num as int));
                assert((self.den as int) * (other.num as int) == -((self.den as int) * (-(other.num
                    as int)))) by (nonlinear_arith);
            }
        }
        if d0 >= 1 {
            make_rat(n0, d0)
        } else {
            make_rat(-n0, -d0)
        }
    }

    /// Exact comparison of the represented rationals.
    pub fn le(self, other: Rat) -> (r: bool)
        requires
            q_fits(self@),
            q_fits(other@),
        ensures
            r == q_le(self@, other@),
    {
        proof {
            lemma_i64_mul_fits(self.num as int, other.den as int);
            lemma_i64_mul_fits(other.num as int, self.den as int);
        }
        (self.num as i128) * (other.den as i128) <= (other.num as i128) * (self.den as i128)
    }

    /// Exact equality of the represented rationals.
    pub fn eq_value(self, other: Rat) -> (r: bool)
        requires
            q_fits(self@),
            q_fits(other@),
        ensures
            r == q_eq(self@, other@),
    {
        proof {
            lemma_i64_mul_fits(self.num as int, other.den as int);
            lemma_i64_mul_fits(other.num as int, self.den as int);
        }
        (self.num as i128) * (other.den as i128) == (other.num as i128) * (self.den as i128)
    }
}

} // verus!
