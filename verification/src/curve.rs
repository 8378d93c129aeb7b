//! The acceleration curve: a multiplier that grows with the pointer velocity
//! and saturates at a ceiling.
//!
//! For a velocity `v` the multiplier is
//! `min(floor + (v * sensitivity) ^ (exponent - 1), ceiling)`. The exponent
//! is one, which gives a constant, or two, which gives a straight line that
//! is cut off at the ceiling. Velocities and multipliers are exact ratios:
//! nothing is rounded here.

use vstd::prelude::*;
use crate::ratio::{Mixed, Ratio, SCALE};

verus! {

/// Number of microseconds in one millisecond.
pub const MICROS_PER_MILLI: u64 = 1_000;

/// The curve as a mathematical object. `sensitivity`, `floor` and `ceiling`
/// are fixed-point numbers in millionths; `exponent` is a plain integer.
pub struct Curve {
    /// Coefficient by which the velocity is multiplied.
    pub sensitivity: int,
    /// Exponent of the curve; the velocity term is raised to `exponent - 1`.
    pub exponent: int,
    /// Multiplier to which the velocity term is added.
    pub floor: int,
    /// Largest multiplier that the curve yields.
    pub ceiling: int,
}

impl Curve {
    /// The four numbers describe a curve: the exponent is one or two, the
    /// floor does not lie above the ceiling and nothing is negative.
    pub open spec fn wf(self) -> bool {
        &&& 0 <= self.sensitivity
        &&& 1 <= self.exponent <= 2
        &&& 0 <= self.floor <= self.ceiling
    }

    /// The multiplier before the ceiling is applied, in millionths, as the
    /// numerator of a ratio whose denominator is that of the velocity. The
    /// velocity is in counts per millisecond.
    pub open spec fn raised(self, velocity: Ratio) -> int {
        if self.exponent == 1 {
            (self.floor + SCALE) * velocity.den
        } else {
            self.floor * velocity.den + self.sensitivity * velocity.num
        }
    }

    /// The multiplier for a velocity in counts per millisecond, in
    /// millionths, over the denominator of the velocity.
    pub open spec fn multiplier(self, velocity: Ratio) -> Ratio {
        let raised = self.raised(velocity);
        let capped = self.ceiling * velocity.den;
        Ratio { num: if raised <= capped { raised } else { capped }, den: velocity.den }
    }

    /// The curve yields exactly its ceiling for this velocity.
    pub open spec fn saturated(self, velocity: Ratio) -> bool {
        self.multiplier(velocity).num == self.ceiling * velocity.den
    }
}

/// A pointer velocity: a number of counts travelled in a positive number of
/// microseconds. Its view is the velocity in counts per millisecond.
#[derive(Clone, Copy, Debug, PartialEq, Eq)]
pub struct Velocity {
    counts: u32,
    micros: u128,
}

impl View for Velocity {
    type V = Ratio;

    closed spec fn view(&self) -> Ratio {
        Ratio { num: self.counts * MICROS_PER_MILLI, den: self.micros as int }
    }
}

impl Velocity {
    /// What holds of every velocity.
    #[verifier::type_invariant]
    pub closed spec fn valid(self) -> bool {
        self.micros > 0
    }

    /// The velocity of `counts` counts in `micros` microseconds. There is
    /// none exactly when no time has elapsed.
    pub fn new(counts: u32, micros: u128) -> (made: Option<Velocity>)
        ensures
            made is None <==> micros == 0,
            made matches Some(v) ==> v@.wf() && v@ == (Ratio {
                num: counts * MICROS_PER_MILLI,
                den: micros as int,
            }),
    {
        if micros == 0 {
            None
        } else {
            Some(Velocity { counts, micros })
        }
    }

    /// The counts travelled.
    pub fn counts(&self) -> (counts: u32)
        ensures
            counts * MICROS_PER_MILLI == self@.num,
            self@.wf(),
    {
        proof {
            use_type_invariant(self);
        }
        self.counts
    }

    /// The microseconds it took.
    pub fn micros(&self) -> (micros: u128)
        ensures
            micros == self@.den,
            self@.wf(),
    {
        proof {
            use_type_invariant(self);
        }
        self.micros
    }
}

/// A multiplier, exact: `millionths + remainder / divisor` millionths, with
/// the fraction below one. Two factors compare equal when their three parts
/// are equal; the fraction is kept as it arose, not in lowest terms.
#[derive(Clone, Copy, Debug, PartialEq, Eq)]
pub struct Factor {
    millionths: u32,
    remainder: u128,
    divisor: u128,
}

impl View for Factor {
    type V = Mixed;

    closed spec fn view(&self) -> Mixed {
        Mixed {
            whole: self.millionths as int,
            rest: self.remainder as int,
            per: self.divisor as int,
        }
    }
}

impl Factor {
    /// What holds of every factor.
    #[verifier::type_invariant]
    pub closed spec fn valid(self) -> bool {
        self.remainder < self.divisor && self.remainder <= 0x1_0000_0000_0000_0000_0000
    }

    /// The factor of a whole number of millionths.
    pub fn whole(millionths: u32) -> (factor: Factor)
        ensures
            factor@ == (Mixed { whole: millionths as int, rest: 0, per: 1 }),
            factor@.wf(),
    {
        Factor { millionths, remainder: 0, divisor: 1 }
    }

    /// The whole millionths of the factor.
    pub fn millionths(&self) -> (millionths: u32)
        ensures
            millionths == self@.whole,
            self@.wf(),
    {
        proof {
            use_type_invariant(self);
        }
        self.millionths
    }

    /// The numerator of the fraction of a millionth.
    pub fn remainder(&self) -> (remainder: u128)
        ensures
            remainder == self@.rest,
            remainder <= 0x1_0000_0000_0000_0000_0000,
            self@.wf(),
    {
        proof {
            use_type_invariant(self);
        }
        self.remainder
    }

    /// The denominator of the fraction of a millionth.
    pub fn divisor(&self) -> (divisor: u128)
        ensures
            divisor == self@.per,
            self@.wf(),
    {
        proof {
            use_type_invariant(self);
        }
        self.divisor
    }
}

/// The constants of the curve, fixed when they are made. Every value of this
/// type describes a curve: the exponent is one or two and the floor does not
/// lie above the ceiling.
#[derive(Clone, Copy, Debug, PartialEq, Eq)]
pub struct AccelerationParameters {
    sensitivity: u32,
    exponent: u32,
    floor: u32,
    ceiling: u32,
}

impl View for AccelerationParameters {
    type V = Curve;

    closed spec fn view(&self) -> Curve {
        Curve {
            sensitivity: self.sensitivity as int,
            exponent: self.exponent as int,
            floor: self.floor as int,
            ceiling: self.ceiling as int,
        }
    }
}

impl AccelerationParameters {
    /// What holds of every parameter set.
    #[verifier::type_invariant]
    pub closed spec fn valid(self) -> bool {
        1 <= self.exponent <= 2 && self.floor <= self.ceiling
    }

    /// Validates and builds a parameter set. It is refused exactly when the
    /// exponent is neither one nor two, or the floor lies above the ceiling.
    /// A higher power of a ratio grows beyond every machine integer, so that
    /// its multiplier could not be kept exact.
    pub fn new(sensitivity: u32, exponent: u32, floor: u32, ceiling: u32) -> (made: Option<
        AccelerationParameters,
    >)
        ensures
            made is Some <==> 1 <= exponent <= 2 && floor <= ceiling,
            made matches Some(p) ==> p@.wf() && p@ == (Curve {
                sensitivity: sensitivity as int,
                exponent: exponent as int,
                floor: floor as int,
                ceiling: ceiling as int,
            }),
    {
        if 1 <= exponent && exponent <= 2 && floor <= ceiling {
            Some(AccelerationParameters { sensitivity, exponent, floor, ceiling })
        } else {
            None
        }
    }

    /// A valid parameter set describes a well-formed curve.
    pub proof fn lemma_valid(self)
        requires
            self.valid(),
        ensures
            self@.wf(),
    {
    }

    /// The coefficient by which the velocity is multiplied, in millionths.
    pub fn sensitivity(&self) -> (sensitivity: u32)
        ensures
            sensitivity == self@.sensitivity,
    {
        self.sensitivity
    }

    /// The exponent of the curve.
    pub fn exponent(&self) -> (exponent: u32)
        ensures
            exponent == self@.exponent,
    {
        self.exponent
    }

    /// The multiplier to which the velocity term is added, in millionths.
    pub fn floor(&self) -> (floor: u32)
        ensures
            floor == self@.floor,
    {
        self.floor
    }

    /// The largest multiplier that the curve yields, in millionths.
    pub fn ceiling(&self) -> (ceiling: u32)
        ensures
            ceiling == self@.ceiling,
    {
        self.ceiling
    }

    /// The multiplier for a velocity, exact.
    pub fn multiplier(&self, velocity: &Velocity) -> (factor: Factor)
        ensures
            self@.wf(),
            velocity@.wf(),
            factor@.wf(),
            factor@.ratio() == self@.multiplier(velocity@),
            self@.floor <= factor@.whole <= self@.ceiling,
            factor@.whole == self@.ceiling ==> factor@.rest == 0,
    {
        proof {
            use_type_invariant(self);
            use_type_invariant(velocity);
        }
        let per: u128 = velocity.micros;
        if self.exponent == 1 {
            let raised: u64 = self.floor as u64 + SCALE;
            let whole: u32 = if raised <= self.ceiling as u64 {
                raised as u32
            } else {
                self.ceiling
            };
            assert(self@.multiplier(velocity@).num == whole * per) by (nonlinear_arith)
                requires
                    self@.multiplier(velocity@).num == if (self.floor + SCALE) * per
                        <= self.ceiling * per {
                        (self.floor + SCALE) * per
                    } else {
                        self.ceiling * per
                    },
                    whole == if self.floor + SCALE <= self.ceiling {
                        self.floor + SCALE
                    } else {
                        self.ceiling as int
                    },
                    0 < per,
            ;
            Factor { millionths: whole, remainder: 0, divisor: per }
        } else {
            assert(self.sensitivity * (velocity.counts * MICROS_PER_MILLI) <= 0x1_0000_0000
                * 0x400_0000_0000) by (nonlinear_arith)
                requires
                    self.sensitivity <= 0x1_0000_0000,
                    velocity.counts * MICROS_PER_MILLI <= 0x400_0000_0000,
            ;
            let push: u128 = (self.sensitivity as u128) * ((velocity.counts as u128)
                * (MICROS_PER_MILLI as u128));
            let whole: u128 = push / per;
            let rest: u128 = push % per;
            let room: u128 = (self.ceiling - self.floor) as u128;
            proof {
                vstd::arithmetic::div_mod::lemma_fundamental_div_mod(push as int, per as int);
                assert(per * (push / per) == whole * per) by (nonlinear_arith)
                    requires
                        whole == push / per,
                ;
                assert(push == whole * per + rest);
            }
            if whole >= room {
                assert(self@.raised(velocity@) >= self.ceiling * per) by (nonlinear_arith)
                    requires
                        self@.raised(velocity@) == self.floor * per + push,
                        push == whole * per + rest,
                        whole >= self.ceiling - self.floor,
                        0 < per,
                ;
                Factor { millionths: self.ceiling, remainder: 0, divisor: per }
            } else {
                assert(self@.raised(velocity@) == (self.floor + whole) * per + rest
                    && self@.raised(velocity@) <= self.ceiling * per) by (nonlinear_arith)
                    requires
                        self@.raised(velocity@) == self.floor * per + push,
                        push == whole * per + rest,
                        whole + 1 <= self.ceiling - self.floor,
                        rest < per,
                ;
                Factor { millionths: self.floor + (whole as u32), remainder: rest, divisor: per }
            }
        }
    }
}

impl Default for AccelerationParameters {
    /// A gentle straight-line curve: the multiplier starts at 0.75, rises by
    /// 0.02 for every count per millisecond and stops at 1.5.
    fn default() -> (p: AccelerationParameters)
        ensures
            p@.wf(),
            p@ == (Curve {
                sensitivity: 20_000,
                exponent: 2,
                floor: 750_000,
                ceiling: 1_500_000,
            }),
    {
        AccelerationParameters {
            sensitivity: 20_000,
            exponent: 2,
            floor: 750_000,
            ceiling: 1_500_000,
        }
    }
}

/// The multiplier is a ratio, and it always lies between the floor and the
/// ceiling.
pub proof fn lemma_multiplier_bounds(c: Curve, v: Ratio)
    requires
        c.wf(),
        v.wf(),
    ensures
        c.multiplier(v).wf(),
        c.multiplier(v).den == v.den,
        c.floor * v.den <= c.multiplier(v).num <= c.ceiling * v.den,
{
    assert(0 <= c.floor * v.den <= c.ceiling * v.den && 0 <= c.sensitivity * v.num && c.floor
        * v.den <= (c.floor + SCALE) * v.den) by (nonlinear_arith)
        requires
            c.wf(),
            v.wf(),
    ;
}

/// The multiplier never decreases when the velocity increases.
pub proof fn lemma_multiplier_monotonic(c: Curve, v1: Ratio, v2: Ratio)
    requires
        c.wf(),
        v1.wf(),
        v2.wf(),
        v1.le(v2),
    ensures
        c.multiplier(v1).le(c.multiplier(v2)),
{
    let s = c.sensitivity;
    // Both multipliers over the common denominator `v1.den * v2.den`.
    let raised1 = c.raised(v1) * v2.den;
    let raised2 = c.raised(v2) * v1.den;
    let capped = c.ceiling * v1.den * v2.den;
    if c.exponent == 1 {
        assert(raised1 == raised2) by (nonlinear_arith)
            requires
                raised1 == ((c.floor + SCALE) * v1.den) * v2.den,
                raised2 == ((c.floor + SCALE) * v2.den) * v1.den,
        ;
    } else {
        let a = v1.num * v2.den;
        let b = v2.num * v1.den;
        assert(s * a <= s * b) by (nonlinear_arith)
            requires
                a <= b,
                0 <= s,
        ;
        assert(raised1 == c.floor * (v1.den * v2.den) + s * a) by (nonlinear_arith)
            requires
                raised1 == (c.floor * v1.den + s * v1.num) * v2.den,
                a == v1.num * v2.den,
        ;
        assert(raised2 == c.floor * (v1.den * v2.den) + s * b) by (nonlinear_arith)
            requires
                raised2 == (c.floor * v2.den + s * v2.num) * v1.den,
                b == v2.num * v1.den,
        ;
    }
    assert((c.ceiling * v1.den) * v2.den == capped && (c.ceiling * v2.den) * v1.den == capped)
        by (nonlinear_arith)
        requires
            capped == c.ceiling * v1.den * v2.den,
    ;
    assert(c.raised(v1) <= c.ceiling * v1.den <==> raised1 <= capped) by (nonlinear_arith)
        requires
            raised1 == c.raised(v1) * v2.den,
            (c.ceiling * v1.den) * v2.den == capped,
            0 < v2.den,
    ;
    assert(c.raised(v2) <= c.ceiling * v2.den <==> raised2 <= capped) by (nonlinear_arith)
        requires
            raised2 == c.raised(v2) * v1.den,
            (c.ceiling * v2.den) * v1.den == capped,
            0 < v1.den,
    ;
}

/// The same velocity yields the same multiplier, however the velocity is
/// written as a ratio.
pub proof fn lemma_multiplier_of_same_velocity(c: Curve, v1: Ratio, v2: Ratio)
    requires
        c.wf(),
        v1.wf(),
        v2.wf(),
        v1.same(v2),
    ensures
        c.multiplier(v1).same(c.multiplier(v2)),
{
    lemma_multiplier_monotonic(c, v1, v2);
    lemma_multiplier_monotonic(c, v2, v1);
}

/// At rest a straight line yields its floor; a curve with exponent one
/// yields its floor plus one, if the ceiling allows, at every velocity.
pub proof fn lemma_multiplier_at_rest(c: Curve, v: Ratio)
    requires
        c.wf(),
        v.wf(),
    ensures
        c.exponent == 2 && v.num == 0 ==> c.multiplier(v).num == c.floor * v.den,
        c.exponent == 1 && c.floor + SCALE <= c.ceiling ==> c.multiplier(v).num == (c.floor
            + SCALE) * v.den,
        c.exponent == 1 && c.floor + SCALE > c.ceiling ==> c.saturated(v),
{
    assert(c.floor * v.den <= c.ceiling * v.den && c.sensitivity * 0 == 0 && (c.floor + SCALE
        <= c.ceiling ==> (c.floor + SCALE) * v.den <= c.ceiling * v.den) && (c.floor + SCALE
        > c.ceiling ==> (c.floor + SCALE) * v.den > c.ceiling * v.den)) by (nonlinear_arith)
        requires
            c.wf(),
            v.wf(),
    ;
}

/// The saturation threshold of a straight line is the velocity
/// `(ceiling - floor) / sensitivity`: the curve yields exactly its ceiling
/// at and above that velocity, and less than its ceiling below it.
pub proof fn lemma_saturation_threshold(c: Curve, v: Ratio)
    requires
        c.wf(),
        c.exponent == 2,
        v.wf(),
    ensures
        c.saturated(v) <==> c.sensitivity * v.num >= (c.ceiling - c.floor) * v.den,
        !c.saturated(v) ==> c.multiplier(v).num == c.floor * v.den + c.sensitivity * v.num,
{
    assert(c.floor * v.den + (c.ceiling - c.floor) * v.den == c.ceiling * v.den)
        by (nonlinear_arith);
}

/// Saturation persists: once a velocity yields the ceiling, so does every
/// higher velocity.
pub proof fn lemma_saturation_persists(c: Curve, v0: Ratio, v: Ratio)
    requires
        c.wf(),
        v0.wf(),
        v.wf(),
        v0.le(v),
        c.saturated(v0),
    ensures
        c.saturated(v),
{
    lemma_multiplier_monotonic(c, v0, v);
    lemma_multiplier_bounds(c, v);
    let n = c.multiplier(v).num;
    assert(n >= c.ceiling * v.den) by (nonlinear_arith)
        requires
            (c.ceiling * v0.den) * v.den <= n * v0.den,
            0 < v0.den,
            0 < v.den,
    ;
}

} // verus!
