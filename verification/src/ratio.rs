//! Exact arithmetic on ratios of integers.
//!
//! The constants of a curve are fixed-point numbers in millionths. Whatever
//! is computed from them is carried as an exact ratio of two integers until
//! it is rounded, once, to the nearest integer with ties going up.

use vstd::prelude::*;

verus! {

/// The fixed-point representation of one.
pub const SCALE: u64 = 1_000_000;

/// A non-negative rational number, `num / den`.
pub struct Ratio {
    pub num: int,
    pub den: int,
}

impl Ratio {
    /// The numerator is not negative and the denominator is positive.
    pub open spec fn wf(self) -> bool {
        0 <= self.num && 0 < self.den
    }

    /// `self <= other` as numbers.
    pub open spec fn le(self, other: Ratio) -> bool {
        self.num * other.den <= other.num * self.den
    }

    /// `self == other` as numbers, whatever the two denominators are.
    pub open spec fn same(self, other: Ratio) -> bool {
        self.num * other.den == other.num * self.den
    }
}

/// A non-negative rational number in mixed form, `whole + rest / per` with
/// the fraction below one.
pub struct Mixed {
    pub whole: int,
    pub rest: int,
    pub per: int,
}

impl Mixed {
    /// Nothing is negative and the fraction is a proper one.
    pub open spec fn wf(self) -> bool {
        0 <= self.whole && 0 <= self.rest < self.per
    }

    /// The same number as one ratio.
    pub open spec fn ratio(self) -> Ratio {
        Ratio { num: self.whole * self.per + self.rest, den: self.per }
    }
}

/// The quotient `n / d` rounded to the nearest integer, a tie going up.
/// It is meant for `n >= 0` and `d > 0`.
pub open spec fn round_div(n: int, d: int) -> int {
    (2 * n + d) / (2 * d)
}

/// `round_div` is the nearest integer: twice the quotient lies within one
/// half-open unit centred on twice the result.
pub proof fn lemma_round_div_nearest(n: int, d: int)
    requires
        0 <= n,
        0 < d,
    ensures
        0 <= round_div(n, d),
        2 * d * round_div(n, d) - d <= 2 * n < 2 * d * round_div(n, d) + d,
{
    let r = round_div(n, d);
    vstd::arithmetic::div_mod::lemma_fundamental_div_mod(2 * n + d, 2 * d);
    vstd::arithmetic::div_mod::lemma_mod_bound(2 * n + d, 2 * d);
    vstd::arithmetic::div_mod::lemma_div_pos_is_pos(2 * n + d, 2 * d);
    assert(2 * d * r == (2 * d) * r) by (nonlinear_arith);
}

/// Only one integer is nearest in the sense of [`lemma_round_div_nearest`].
pub proof fn lemma_round_div_unique(n: int, d: int, r: int)
    requires
        0 < d,
        2 * d * r - d <= 2 * n < 2 * d * r + d,
    ensures
        r == round_div(n, d),
{
    assert((2 * d) * r + (2 * n + d - 2 * d * r) == 2 * n + d) by (nonlinear_arith);
    assert(0 <= 2 * n + d - 2 * d * r < 2 * d);
    vstd::arithmetic::div_mod::lemma_fundamental_div_mod_converse(
        2 * n + d,
        2 * d,
        r,
        2 * n + d - 2 * d * r,
    );
}

/// Rounding keeps the order of ratios: the smaller of two ratios never
/// rounds to the larger integer.
pub proof fn lemma_round_div_monotonic(n1: int, d1: int, n2: int, d2: int)
    requires
        0 <= n1,
        0 <= n2,
        0 < d1,
        0 < d2,
        n1 * d2 <= n2 * d1,
    ensures
        round_div(n1, d1) <= round_div(n2, d2),
{
    let r1 = round_div(n1, d1);
    let r2 = round_div(n2, d2);
    lemma_round_div_nearest(n1, d1);
    lemma_round_div_nearest(n2, d2);
    if r2 < r1 {
        assert(false) by (nonlinear_arith)
            requires
                2 * d1 * r1 - d1 <= 2 * n1,
                2 * n2 < 2 * d2 * r2 + d2,
                n1 * d2 <= n2 * d1,
                r2 + 1 <= r1,
                0 < d1,
                0 < d2,
        ;
    }
}

/// Rounding a sum of a whole part and a fraction over an even unit: the
/// fraction `n / per` may be cut to its integer part first. With `part` the
/// integer part of `n / per`, rounding `(whole * per + n) / (per * unit)`
/// gives what rounding `(whole + part) / unit` gives.
pub proof fn lemma_round_div_mixed(whole: int, n: int, per: int, unit: int)
    requires
        0 <= whole,
        0 <= n,
        0 < per,
        0 < unit,
        unit % 2 == 0,
    ensures
        round_div(whole * per + n, per * unit) == round_div(whole + n / per, unit),
{
    let part = n / per;
    let left = n % per;
    let half = unit / 2;
    let k = round_div(whole + part, unit);
    vstd::arithmetic::div_mod::lemma_fundamental_div_mod(n, per);
    vstd::arithmetic::div_mod::lemma_mod_bound(n, per);
    vstd::arithmetic::div_mod::lemma_div_pos_is_pos(n, per);
    lemma_round_div_nearest(whole + part, unit);
    // Both bounds on `whole + part` are even numbers, so the upper one
    // leaves room for a fraction below one.
    assert(2 * unit * k - unit <= 2 * (whole + part) <= 2 * unit * k + unit - 2) by {
        assert(unit == 2 * half);
        assert(2 * unit * k == 2 * (unit * k)) by (nonlinear_arith);
    }
    assert(per * (n / per) == part * per) by (nonlinear_arith)
        requires
            part == n / per,
    ;
    assert(2 * (per * unit) * k - per * unit <= 2 * (whole * per + n) < 2 * (per * unit) * k
        + per * unit) by (nonlinear_arith)
        requires
            2 * unit * k - unit <= 2 * (whole + part) <= 2 * unit * k + unit - 2,
            n == part * per + left,
            0 <= left < per,
            0 < per,
    ;
    assert(0 < per * unit) by (nonlinear_arith)
        requires
            0 < per,
            0 < unit,
    ;
    lemma_round_div_unique(whole * per + n, per * unit, k);
}

} // verus!
