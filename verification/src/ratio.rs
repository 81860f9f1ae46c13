//! Non-negative exact fractions.
//!
//! Every factor and every score of the matching engine is a fraction of two
//! machine integers, so that no rounding ever decides a comparison.

use vstd::prelude::*;

verus! {

/// A non-negative fraction `num / den`, kept exactly as two integers.
///
/// Two fractions may denote the same number (`1/2` and `2/4`); the spec
/// functions below compare the numbers, `==` compares the representations.
#[derive(Clone, Copy, Debug, PartialEq, Eq, Structural)]
pub struct Ratio {
    pub num: u128,
    pub den: u128,
}

/// How the first of two numbers stands to the second.
#[derive(Clone, Copy, Debug, PartialEq, Eq, Structural)]
pub enum Order {
    Below,
    Same,
    Above,
}

/// The order of `a / b` relative to `c / d`, by cross multiplication.
pub open spec fn order_of(a: int, b: int, c: int, d: int) -> Order {
    if a * d < c * b {
        Order::Below
    } else if a * d == c * b {
        Order::Same
    } else {
        Order::Above
    }
}

impl Ratio {
    /// A fraction denotes a number only when its denominator is positive.
    pub open spec fn wf(&self) -> bool {
        self.den > 0
    }

    /// The fraction denotes a number of the closed interval from 0 to 1.
    pub open spec fn is_unit(&self) -> bool {
        self.wf() && self.num <= self.den
    }

    /// `self < other`, as numbers.
    pub open spec fn lt(&self, other: Ratio) -> bool {
        self.num * other.den < other.num * self.den
    }

    /// `self <= other`, as numbers.
    pub open spec fn le(&self, other: Ratio) -> bool {
        self.num * other.den <= other.num * self.den
    }

    /// `self` and `other` denote the same number.
    pub open spec fn same(&self, other: Ratio) -> bool {
        self.num * other.den == other.num * self.den
    }

    /// The order of `self` relative to `other`, as numbers.
    pub open spec fn order(&self, other: Ratio) -> Order {
        order_of(self.num as int, self.den as int, other.num as int, other.den as int)
    }

    /// The fraction `num / den`.
    pub fn new(num: u128, den: u128) -> (r: Ratio)
        ensures
            r == (Ratio { num, den }),
    {
        Ratio { num, den }
    }

    /// Compares two fractions as numbers.
    ///
    /// The products of a cross multiplication need not fit in 128 bits, so
    /// the comparison walks down the two continued fractions instead: equal
    /// integer parts leave the remainders to compare, with the roles of
    /// numerator and denominator exchanged.
    pub fn compare(&self, other: &Ratio) -> (o: Order)
        requires
            self.wf(),
            other.wf(),
        ensures
            o == self.order(*other),
    {
        let mut a: u128 = self.num;
        let mut b: u128 = self.den;
        let mut c: u128 = other.num;
        let mut d: u128 = other.den;
        loop
            invariant
                b > 0,
                d > 0,
                order_of(a as int, b as int, c as int, d as int) == self.order(*other),
            decreases b + d,
        {
            let q1: u128 = a / b;
            let q2: u128 = c / d;
            let r1: u128 = a % b;
            let r2: u128 = c % d;
            proof {
                lemma_split(a as int, b as int, q1 as int, r1 as int);
                lemma_split(c as int, d as int, q2 as int, r2 as int);
                lemma_order_by_parts(
                    q1 as int,
                    r1 as int,
                    b as int,
                    q2 as int,
                    r2 as int,
                    d as int,
                );
            }
            if q1 < q2 {
                return Order::Below;
            }
            if q1 > q2 {
                return Order::Above;
            }
            if r1 == 0 {
                if r2 == 0 {
                    return Order::Same;
                }
                proof {
                    lemma_zero_against_positive(b as int, r2 as int, d as int);
                }
                return Order::Below;
            }
            if r2 == 0 {
                proof {
                    lemma_positive_against_zero(r1 as int, b as int, d as int);
                }
                return Order::Above;
            }
            proof {
                lemma_order_exchanged(r1 as int, b as int, r2 as int, d as int);
            }
            a = d;
            c = b;
            b = r2;
            d = r1;
        }
    }

    /// Whether `self < other`, as numbers.
    pub fn is_below(&self, other: &Ratio) -> (b: bool)
        requires
            self.wf(),
            other.wf(),
        ensures
            b == self.lt(*other),
    {
        match self.compare(other) {
            Order::Below => true,
            _ => false,
        }
    }

    /// Whether `self > other`, as numbers.
    pub fn is_above(&self, other: &Ratio) -> (b: bool)
        requires
            self.wf(),
            other.wf(),
        ensures
            b == other.lt(*self),
    {
        match self.compare(other) {
            Order::Above => true,
            _ => false,
        }
    }
}

/// Division with remainder: `a == q * b + r` with `0 <= r < b`.
proof fn lemma_split(a: int, b: int, q: int, r: int)
    requires
        0 <= a,
        0 < b,
        q == a / b,
        r == a % b,
    ensures
        a == q * b + r,
        0 <= r < b,
        0 <= q,
{
    vstd::arithmetic::div_mod::lemma_fundamental_div_mod(a, b);
    vstd::arithmetic::div_mod::lemma_mod_bound(a, b);
    vstd::arithmetic::div_mod::lemma_div_pos_is_pos(a, b);
    assert(b * q == q * b) by (nonlinear_arith);
}

/// Two numbers written as integer part and proper rest compare by their
/// integer parts first, and by their rests when those agree.
proof fn lemma_order_by_parts(q1: int, r1: int, b: int, q2: int, r2: int, d: int)
    requires
        0 <= r1 < b,
        0 <= r2 < d,
        0 <= q1,
        0 <= q2,
    ensures
        q1 < q2 ==> order_of(q1 * b + r1, b, q2 * d + r2, d) == Order::Below,
        q1 > q2 ==> order_of(q1 * b + r1, b, q2 * d + r2, d) == Order::Above,
        q1 == q2 ==> order_of(q1 * b + r1, b, q2 * d + r2, d) == order_of(r1, b, r2, d),
{
    assert((q1 * b + r1) * d == q1 * (b * d) + r1 * d) by (nonlinear_arith);
    assert((q2 * d + r2) * b == q2 * (b * d) + r2 * b) by (nonlinear_arith);
    assert(r1 * d < b * d) by (nonlinear_arith)
        requires
            0 <= r1 < b,
            0 < d,
    ;
    assert(r2 * b < b * d) by (nonlinear_arith)
        requires
            0 <= r2 < d,
            0 < b,
    ;
    assert(0 <= r1 * d && 0 <= r2 * b) by (nonlinear_arith)
        requires
            0 <= r1,
            0 <= r2,
            0 < b,
            0 < d,
    ;
    if q1 < q2 {
        assert(q1 * (b * d) + b * d <= q2 * (b * d)) by (nonlinear_arith)
            requires
                q1 + 1 <= q2,
                0 < b * d,
        ;
    }
    if q1 > q2 {
        assert(q2 * (b * d) + b * d <= q1 * (b * d)) by (nonlinear_arith)
            requires
                q2 + 1 <= q1,
                0 < b * d,
        ;
    }
}

/// Nothing is less than any positive fraction.
proof fn lemma_zero_against_positive(b: int, r2: int, d: int)
    requires
        0 < b,
        0 < r2,
    ensures
        order_of(0, b, r2, d) == Order::Below,
{
    assert(0 < r2 * b) by (nonlinear_arith)
        requires
            0 < b,
            0 < r2,
    ;
    assert(0 * d == 0);
}

/// Any positive fraction is more than nothing.
proof fn lemma_positive_against_zero(r1: int, b: int, d: int)
    requires
        0 < r1,
        0 < d,
    ensures
        order_of(r1, b, 0, d) == Order::Above,
{
    assert(0 < r1 * d) by (nonlinear_arith)
        requires
            0 < r1,
            0 < d,
    ;
    assert(0 * b == 0);
}

/// `r1 / b` stands to `r2 / d` as `d / r2` stands to `b / r1`.
proof fn lemma_order_exchanged(r1: int, b: int, r2: int, d: int)
    ensures
        order_of(d, r2, b, r1) == order_of(r1, b, r2, d),
{
    assert(d * r1 == r1 * d) by (nonlinear_arith);
    assert(b * r2 == r2 * b) by (nonlinear_arith);
}

/// Comparing fractions with positive denominators is transitive:
/// `x <= y` and `y <= z` give `x <= z`, strictly when either step is strict.
pub proof fn lemma_le_transitive(x: Ratio, y: Ratio, z: Ratio)
    requires
        x.wf(),
        y.wf(),
        z.wf(),
        x.le(y),
        y.le(z),
    ensures
        x.le(z),
        x.lt(y) || y.lt(z) ==> x.lt(z),
{
    let (xn, xd) = (x.num as int, x.den as int);
    let (yn, yd) = (y.num as int, y.den as int);
    let (zn, zd) = (z.num as int, z.den as int);
    assert((xn * yd) * zd <= (yn * xd) * zd) by (nonlinear_arith)
        requires
            xn * yd <= yn * xd,
            0 < zd,
    ;
    assert((yn * zd) * xd <= (zn * yd) * xd) by (nonlinear_arith)
        requires
            yn * zd <= zn * yd,
            0 < xd,
    ;
    assert((yn * xd) * zd == (yn * zd) * xd) by (nonlinear_arith);
    assert((xn * yd) * zd == (xn * zd) * yd) by (nonlinear_arith);
    assert((zn * yd) * xd == (zn * xd) * yd) by (nonlinear_arith);
    assert(xn * zd <= zn * xd) by (nonlinear_arith)
        requires
            (xn * zd) * yd <= (zn * xd) * yd,
            0 < yd,
    ;
    if x.lt(y) {
        assert((xn * yd) * zd < (yn * xd) * zd) by (nonlinear_arith)
            requires
                xn * yd < yn * xd,
                0 < zd,
        ;
        assert(xn * zd < zn * xd) by (nonlinear_arith)
            requires
                (xn * zd) * yd < (zn * xd) * yd,
                0 < yd,
        ;
    }
    if y.lt(z) {
        assert((yn * zd) * xd < (zn * yd) * xd) by (nonlinear_arith)
            requires
                yn * zd < zn * yd,
                0 < xd,
        ;
        assert(xn * zd < zn * xd) by (nonlinear_arith)
            requires
                (xn * zd) * yd < (zn * xd) * yd,
                0 < yd,
        ;
    }
}

} // verus!
