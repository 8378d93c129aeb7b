//! The event transformer: it scales the magnitude of one relative-motion
//! sample by the multiplier that the curve yields for its velocity.
//!
//! Elapsed time is counted in microseconds and velocity in counts per
//! millisecond. Velocity and multiplier are exact ratios; the product of
//! magnitude and multiplier is rounded once, to the nearest integer with
//! ties going away from zero.

use vstd::prelude::*;
use crate::curve::{
    lemma_multiplier_bounds, lemma_multiplier_monotonic, lemma_saturation_threshold,
    AccelerationParameters, Curve, Factor, Velocity, MICROS_PER_MILLI,
};
use crate::ratio::{
    lemma_round_div_mixed, lemma_round_div_monotonic, lemma_round_div_nearest,
    lemma_round_div_unique, round_div, Ratio, SCALE,
};
use crate::sample::InputSample;

verus! {

/// The size of a signed magnitude.
pub open spec fn spec_magnitude(value: int) -> int {
    if value >= 0 {
        value
    } else {
        -value
    }
}

/// The sign of an integer: -1, 0 or 1.
pub open spec fn spec_sign(value: int) -> int {
    if value > 0 {
        1
    } else if value < 0 {
        -1
    } else {
        0
    }
}

/// The velocity of a sample that moved `value` counts in `elapsed`
/// microseconds, in counts per millisecond. It is meant for `elapsed > 0`.
pub open spec fn spec_velocity(value: int, elapsed: int) -> Ratio {
    Ratio { num: spec_magnitude(value) * MICROS_PER_MILLI, den: elapsed }
}

/// A whole number of millionths as a ratio.
pub open spec fn spec_whole(millionths: int) -> Ratio {
    Ratio { num: millionths, den: 1 }
}

/// The size of the product of a magnitude and a factor in millionths,
/// rounded to the nearest integer with ties going away from zero.
pub open spec fn spec_rounded(value: int, factor: Ratio) -> int {
    round_div(spec_magnitude(value) * factor.num, factor.den * SCALE)
}

/// The product of a magnitude and a factor in millionths: its size is
/// [`spec_rounded`], its sign is that of the magnitude, and it stops at the
/// ends of the 32-bit range.
pub open spec fn spec_scale(value: int, factor: Ratio) -> int {
    let size = spec_rounded(value, factor);
    if value >= 0 {
        if size <= i32::MAX {
            size
        } else {
            i32::MAX as int
        }
    } else {
        if -size >= i32::MIN {
            -size
        } else {
            i32::MIN as int
        }
    }
}

/// The product of a magnitude and a factor fits the 32-bit range, so that
/// [`spec_scale`] does not cut it off.
pub open spec fn spec_fits(value: int, factor: Ratio) -> bool {
    if value >= 0 {
        spec_rounded(value, factor) <= i32::MAX
    } else {
        -spec_rounded(value, factor) >= i32::MIN
    }
}

/// The multiplier, in millionths, that applies to a sample that moved
/// `value` counts in `elapsed` microseconds.
pub open spec fn spec_factor(curve: Curve, value: int, elapsed: int) -> Ratio {
    curve.multiplier(spec_velocity(value, elapsed))
}

/// The magnitude that a motion sample carries after the transformation.
/// When no time has elapsed the magnitude stays as it is.
pub open spec fn spec_transform(curve: Curve, value: int, elapsed: int) -> int {
    if elapsed == 0 {
        value
    } else {
        spec_scale(value, spec_factor(curve, value, elapsed))
    }
}

/// The size of a signed magnitude.
pub fn magnitude(value: i32) -> (size: u32)
    ensures
        size == spec_magnitude(value as int),
{
    if value >= 0 {
        value as u32
    } else {
        (-(value as i64)) as u32
    }
}

/// Estimates the velocity of a sample from its magnitude and the time since
/// the last frame. There is no estimate when no time has elapsed.
pub fn velocity(value: i32, elapsed: u128) -> (estimate: Option<Velocity>)
    ensures
        estimate is None <==> elapsed == 0,
        estimate matches Some(v) ==> v@.wf() && v@ == spec_velocity(value as int, elapsed as int),
{
    Velocity::new(magnitude(value), elapsed)
}

/// Multiplies a magnitude by a factor, rounds to the nearest integer with
/// ties going away from zero, and keeps the sign.
pub fn scale(value: i32, factor: &Factor) -> (scaled: i32)
    ensures
        scaled == spec_scale(value as int, factor@.ratio()),
{
    let size: u128 = magnitude(value) as u128;
    let whole: u128 = factor.millionths() as u128;
    let rest: u128 = factor.remainder();
    let per: u128 = factor.divisor();
    assert(size * whole <= 0x8000_0000 * 0x1_0000_0000 && size * rest <= 0x8000_0000
        * 0x1_0000_0000_0000_0000_0000) by (nonlinear_arith)
        requires
            size <= 0x8000_0000,
            whole <= 0x1_0000_0000,
            rest <= 0x1_0000_0000_0000_0000_0000,
    ;
    let part: u128 = size * rest / per;
    let product: u128 = size * whole + part;
    let unit: u128 = SCALE as u128;
    let rounded: u128 = (2 * product + unit) / (2 * unit);
    proof {
        assert(part <= size * rest) by {
            vstd::arithmetic::div_mod::lemma_div_is_ordered_by_denominator(
                (size * rest) as int,
                1,
                per as int,
            );
        }
        assert(size * factor@.ratio().num == (size * whole) * per + size * rest)
            by (nonlinear_arith)
            requires
                factor@.ratio().num == whole * per + rest,
        ;
        assert(size * whole >= 0 && size * rest >= 0) by (nonlinear_arith)
            requires
                size >= 0,
                whole >= 0,
                rest >= 0,
        ;
        lemma_round_div_mixed((size * whole) as int, (size * rest) as int, per as int, unit as int);
        assert(rounded == spec_rounded(value as int, factor@.ratio()));
    }
    if value >= 0 {
        if rounded <= 0x7fff_ffff {
            rounded as i32
        } else {
            i32::MAX
        }
    } else {
        if rounded <= 0x8000_0000 {
            (-(rounded as i64)) as i32
        } else {
            i32::MIN
        }
    }
}

/// Applies the acceleration curve to a relative-motion sample in place.
///
/// `elapsed` is the time in microseconds since the last completed frame.
/// When it is zero the sample is left as it is and the call reports a
/// degenerate frame by returning `true`. Otherwise the magnitude becomes
/// [`spec_transform`] and the call returns `false`. Only the value of the
/// sample changes.
pub fn transform(
    sample: &mut InputSample,
    elapsed: u128,
    params: &AccelerationParameters,
) -> (degenerate: bool)
    requires
        old(sample).spec_is_relative(),
    ensures
        degenerate == (elapsed == 0),
        elapsed == 0 ==> *final(sample) == *old(sample),
        final(sample).time == old(sample).time,
        final(sample).event_type == old(sample).event_type,
        final(sample).code == old(sample).code,
        final(sample).value == spec_transform(params@, old(sample).value as int, elapsed as int),
{
    match velocity(sample.value, elapsed) {
        None => true,
        Some(estimate) => {
            let factor: Factor = params.multiplier(&estimate);
            sample.value = scale(sample.value, &factor);
            false
        },
    }
}

/// The velocity of a sample is a ratio, and so is its multiplier, which lies
/// between the floor and the ceiling of the curve.
pub proof fn lemma_factor_bounds(curve: Curve, value: int, elapsed: int)
    requires
        curve.wf(),
        0 < elapsed,
    ensures
        spec_velocity(value, elapsed).wf(),
        spec_factor(curve, value, elapsed).wf(),
        spec_factor(curve, value, elapsed).den == elapsed,
        curve.floor * elapsed <= spec_factor(curve, value, elapsed).num <= curve.ceiling * elapsed,
{
    lemma_multiplier_bounds(curve, spec_velocity(value, elapsed));
}

/// A scaled 32-bit magnitude is a 32-bit magnitude.
pub proof fn lemma_scale_in_range(value: int, factor: Ratio)
    requires
        i32::MIN <= value <= i32::MAX,
        factor.wf(),
    ensures
        i32::MIN <= spec_scale(value, factor) <= i32::MAX,
{
    lemma_rounded_nearest(value, factor);
}

/// The transformation of a 32-bit magnitude is a 32-bit magnitude.
pub proof fn lemma_transform_in_range(curve: Curve, value: int, elapsed: int)
    requires
        curve.wf(),
        0 <= elapsed,
        i32::MIN <= value <= i32::MAX,
    ensures
        i32::MIN <= spec_transform(curve, value, elapsed) <= i32::MAX,
{
    if elapsed > 0 {
        lemma_factor_bounds(curve, value, elapsed);
        lemma_scale_in_range(value, spec_factor(curve, value, elapsed));
    }
}

/// A degenerate frame leaves the magnitude as it is.
pub proof fn lemma_transform_degenerate(curve: Curve, value: int)
    ensures
        spec_transform(curve, value, 0) == value,
{
}

/// The transformation never turns a magnitude around: the result is zero or
/// has the sign of the input.
pub proof fn lemma_transform_keeps_direction(curve: Curve, value: int, elapsed: int)
    requires
        curve.wf(),
        0 <= elapsed,
    ensures
        value >= 0 ==> spec_transform(curve, value, elapsed) >= 0,
        value <= 0 ==> spec_transform(curve, value, elapsed) <= 0,
{
    if elapsed > 0 {
        let factor = spec_factor(curve, value, elapsed);
        lemma_factor_bounds(curve, value, elapsed);
        lemma_rounded_nearest(value, factor);
        if value == 0 {
            assert(spec_magnitude(value) * factor.num == 0) by (nonlinear_arith)
                requires
                    spec_magnitude(value) == 0,
            ;
            let unit = factor.den * SCALE;
            let size = spec_rounded(value, factor);
            assert(size == 0) by (nonlinear_arith)
                requires
                    2 * unit * size - unit <= 0,
                    0 <= size,
                    unit == factor.den * SCALE,
                    0 < factor.den,
            ;
        }
    }
}

/// The sign of the magnitude is preserved whenever the scaled magnitude does
/// not round to zero, that is, when the exact product is at least one half.
pub proof fn lemma_transform_preserves_sign(curve: Curve, value: int, elapsed: int)
    requires
        curve.wf(),
        0 < elapsed,
        value == 0 || 2 * (spec_magnitude(value) * spec_factor(curve, value, elapsed).num)
            >= elapsed * SCALE,
    ensures
        spec_sign(spec_transform(curve, value, elapsed)) == spec_sign(value),
{
    let factor = spec_factor(curve, value, elapsed);
    lemma_factor_bounds(curve, value, elapsed);
    lemma_rounded_nearest(value, factor);
    lemma_transform_keeps_direction(curve, value, elapsed);
    if value != 0 {
        let exact = spec_magnitude(value) * factor.num;
        let unit = elapsed * SCALE;
        let size = spec_rounded(value, factor);
        assert(size >= 1) by (nonlinear_arith)
            requires
                2 * exact < 2 * unit * size + unit,
                2 * exact >= unit,
                0 < unit,
        ;
    }
}

/// A curve whose floor is at least one half preserves the sign of every
/// magnitude.
pub proof fn lemma_transform_preserves_sign_above_half(curve: Curve, value: int, elapsed: int)
    requires
        curve.wf(),
        0 < elapsed,
        2 * curve.floor >= SCALE,
    ensures
        spec_sign(spec_transform(curve, value, elapsed)) == spec_sign(value),
{
    let factor = spec_factor(curve, value, elapsed);
    lemma_factor_bounds(curve, value, elapsed);
    if value != 0 {
        assert(2 * (spec_magnitude(value) * factor.num) >= elapsed * SCALE) by (nonlinear_arith)
            requires
                spec_magnitude(value) >= 1,
                factor.num >= curve.floor * elapsed,
                2 * curve.floor >= SCALE,
                0 < elapsed,
        ;
    }
    lemma_transform_preserves_sign(curve, value, elapsed);
}

/// Within the 32-bit range the size of the result is the exact product of
/// the size of the input and its multiplier, rounded to the nearest integer:
/// it differs from the exact product by at most one half.
pub proof fn lemma_transform_rounds(curve: Curve, value: int, elapsed: int)
    requires
        curve.wf(),
        0 < elapsed,
        spec_fits(value, spec_factor(curve, value, elapsed)),
    ensures
        spec_magnitude(spec_transform(curve, value, elapsed)) == spec_rounded(
            value,
            spec_factor(curve, value, elapsed),
        ),
        ({
            let exact = spec_magnitude(value) * spec_factor(curve, value, elapsed).num;
            let unit = elapsed * SCALE;
            let size = spec_magnitude(spec_transform(curve, value, elapsed));
            2 * unit * size - unit <= 2 * exact < 2 * unit * size + unit
        }),
{
    lemma_factor_bounds(curve, value, elapsed);
    lemma_rounded_nearest(value, spec_factor(curve, value, elapsed));
}

/// What rounding means: the rounded size of a product is the one integer
/// that lies within one half of the exact product, a tie going to the
/// larger one.
pub proof fn lemma_rounded_is_nearest(value: int, factor: Ratio, size: int)
    requires
        factor.wf(),
    ensures
        size == spec_rounded(value, factor) <==> ({
            let exact = spec_magnitude(value) * factor.num;
            let unit = factor.den * SCALE;
            2 * unit * size - unit <= 2 * exact < 2 * unit * size + unit
        }),
{
    let exact = spec_magnitude(value) * factor.num;
    let unit = factor.den * SCALE;
    lemma_rounded_nearest(value, factor);
    assert(0 < unit) by (nonlinear_arith)
        requires
            unit == factor.den * SCALE,
            0 < factor.den,
    ;
    if 2 * unit * size - unit <= 2 * exact < 2 * unit * size + unit {
        lemma_round_div_unique(exact, unit, size);
    }
}

/// The closed form for a straight line (exponent two). With `a` the size of
/// the magnitude, the size of the product is `a * floor` plus
/// `1000 * sensitivity * a * a / elapsed`, at most `a * ceiling`, all in
/// millionths, rounded once. Cutting the one quotient to an integer does not
/// change the rounding.
pub proof fn lemma_rounded_line(curve: Curve, value: int, elapsed: int)
    requires
        curve.wf(),
        curve.exponent == 2,
        0 < elapsed,
    ensures
        spec_rounded(value, spec_factor(curve, value, elapsed)) == ({
            let a = spec_magnitude(value);
            let raised = a * curve.floor + (MICROS_PER_MILLI * curve.sensitivity * a * a)
                / elapsed;
            let capped = a * curve.ceiling;
            round_div(if raised <= capped { raised } else { capped }, SCALE as int)
        }),
{
    let a = spec_magnitude(value);
    let s = curve.sensitivity;
    let v = spec_velocity(value, elapsed);
    let factor = spec_factor(curve, value, elapsed);
    let push = MICROS_PER_MILLI * s * a * a;
    let room = a * (curve.ceiling - curve.floor);
    lemma_saturation_threshold(curve, v);
    assert(push == a * (s * v.num) && 0 <= push && 0 <= a * curve.floor && 0 <= a
        * curve.ceiling && a * curve.floor + room == a * curve.ceiling) by (nonlinear_arith)
        requires
            push == MICROS_PER_MILLI * s * a * a,
            v.num == a * MICROS_PER_MILLI,
            room == a * (curve.ceiling - curve.floor),
            0 <= s,
            0 <= a,
            0 <= curve.floor <= curve.ceiling,
    ;
    assert(room * elapsed == a * ((curve.ceiling - curve.floor) * elapsed)) by (nonlinear_arith)
        requires
            room == a * (curve.ceiling - curve.floor),
    ;
    if curve.saturated(v) {
        // The exact product is `a * ceiling`, and the quotient is at least
        // the room between floor and ceiling.
        assert(a * factor.num == (a * curve.ceiling) * elapsed + 0) by (nonlinear_arith)
            requires
                factor.num == curve.ceiling * elapsed,
        ;
        lemma_round_div_mixed(a * curve.ceiling, 0, elapsed, SCALE as int);
        assert(push >= room * elapsed) by (nonlinear_arith)
            requires
                push == a * (s * v.num),
                room * elapsed == a * ((curve.ceiling - curve.floor) * elapsed),
                s * v.num >= (curve.ceiling - curve.floor) * elapsed,
                0 <= a,
        ;
        vstd::arithmetic::div_mod::lemma_div_is_ordered(room * elapsed, push, elapsed);
        vstd::arithmetic::div_mod::lemma_div_by_multiple(room, elapsed);
    } else {
        // The exact product is `a * floor + push / elapsed`, and the
        // quotient stays within the room between floor and ceiling.
        assert(a * factor.num == (a * curve.floor) * elapsed + push) by (nonlinear_arith)
            requires
                factor.num == curve.floor * elapsed + s * v.num,
                push == a * (s * v.num),
        ;
        lemma_round_div_mixed(a * curve.floor, push, elapsed, SCALE as int);
        assert(push <= room * elapsed) by (nonlinear_arith)
            requires
                push == a * (s * v.num),
                room * elapsed == a * ((curve.ceiling - curve.floor) * elapsed),
                s * v.num < (curve.ceiling - curve.floor) * elapsed,
                0 <= a,
        ;
        vstd::arithmetic::div_mod::lemma_div_is_ordered(push, room * elapsed, elapsed);
        vstd::arithmetic::div_mod::lemma_div_by_multiple(room, elapsed);
    }
}

/// The size of the result is bounded by the size of the input scaled by the
/// ceiling, and, within the 32-bit range, it is at least the size of the
/// input scaled by the floor.
pub proof fn lemma_transform_bounded(curve: Curve, value: int, elapsed: int)
    requires
        curve.wf(),
        0 < elapsed,
    ensures
        spec_magnitude(spec_transform(curve, value, elapsed)) <= spec_rounded(
            value,
            spec_whole(curve.ceiling),
        ),
        spec_fits(value, spec_factor(curve, value, elapsed)) ==> spec_rounded(
            value,
            spec_whole(curve.floor),
        ) <= spec_magnitude(spec_transform(curve, value, elapsed)),
{
    let factor = spec_factor(curve, value, elapsed);
    lemma_factor_bounds(curve, value, elapsed);
    lemma_rounded_nearest(value, factor);
    lemma_rounded_ordered(value, spec_whole(curve.floor), factor);
    lemma_rounded_ordered(value, factor, spec_whole(curve.ceiling));
}

/// Of two samples that took the same time, the one that moved farther is
/// never multiplied by less; of two samples that moved equally far, the one
/// that took longer is never multiplied by more.
pub proof fn lemma_factor_monotonic(
    curve: Curve,
    slow: int,
    slow_elapsed: int,
    fast: int,
    fast_elapsed: int,
)
    requires
        curve.wf(),
        0 < fast_elapsed <= slow_elapsed,
        spec_magnitude(slow) <= spec_magnitude(fast),
    ensures
        spec_factor(curve, slow, slow_elapsed).le(spec_factor(curve, fast, fast_elapsed)),
{
    let a = spec_magnitude(slow);
    let b = spec_magnitude(fast);
    assert((a * MICROS_PER_MILLI) * fast_elapsed <= (b * MICROS_PER_MILLI) * slow_elapsed)
        by (nonlinear_arith)
        requires
            0 <= a <= b,
            0 < fast_elapsed <= slow_elapsed,
    ;
    lemma_multiplier_monotonic(
        curve,
        spec_velocity(slow, slow_elapsed),
        spec_velocity(fast, fast_elapsed),
    );
}

/// The transformed size never decreases with the velocity: of two
/// transformations of one magnitude, the one with the longer elapsed time
/// never gives the larger size.
pub proof fn lemma_transform_monotonic(curve: Curve, value: int, longer: int, shorter: int)
    requires
        curve.wf(),
        0 < shorter <= longer,
    ensures
        spec_magnitude(spec_transform(curve, value, longer)) <= spec_magnitude(
            spec_transform(curve, value, shorter),
        ),
{
    let slow = spec_factor(curve, value, longer);
    let fast = spec_factor(curve, value, shorter);
    lemma_factor_bounds(curve, value, longer);
    lemma_factor_bounds(curve, value, shorter);
    lemma_factor_monotonic(curve, value, longer, value, shorter);
    lemma_rounded_ordered(value, slow, fast);
    lemma_rounded_nearest(value, slow);
    lemma_rounded_nearest(value, fast);
}

/// At and above the saturation threshold of a straight line, that is, when
/// the velocity times the sensitivity fills the room between floor and
/// ceiling, the result is the magnitude times the ceiling, rounded, whatever
/// the elapsed time.
pub proof fn lemma_transform_saturated(curve: Curve, value: int, elapsed: int)
    requires
        curve.wf(),
        curve.exponent == 2,
        0 < elapsed,
        curve.sensitivity * (spec_magnitude(value) * MICROS_PER_MILLI) >= (curve.ceiling
            - curve.floor) * elapsed,
    ensures
        spec_transform(curve, value, elapsed) == spec_scale(value, spec_whole(curve.ceiling)),
{
    let factor = spec_factor(curve, value, elapsed);
    let a = spec_magnitude(value);
    lemma_saturation_threshold(curve, spec_velocity(value, elapsed));
    lemma_factor_bounds(curve, value, elapsed);
    assert(a * factor.num == (a * curve.ceiling) * elapsed + 0) by (nonlinear_arith)
        requires
            factor.num == curve.ceiling * elapsed,
    ;
    assert(0 <= a * curve.ceiling) by (nonlinear_arith)
        requires
            0 <= a,
            0 <= curve.ceiling,
    ;
    lemma_round_div_mixed(a * curve.ceiling, 0, elapsed, SCALE as int);
    assert(1 * SCALE == SCALE);
}

/// The transformation is not idempotent. Whenever it enlarges a magnitude,
/// transforming the result once more, for the same elapsed time, enlarges it
/// further, as long as the second result fits the 32-bit range.
pub proof fn lemma_transform_compounds(curve: Curve, value: int, elapsed: int)
    requires
        curve.wf(),
        0 < elapsed,
        spec_magnitude(spec_transform(curve, value, elapsed)) > spec_magnitude(value),
        ({
            let once = spec_transform(curve, value, elapsed);
            spec_fits(once, spec_factor(curve, once, elapsed))
        }),
    ensures
        ({
            let once = spec_transform(curve, value, elapsed);
            let twice = spec_transform(curve, once, elapsed);
            spec_magnitude(twice) > spec_magnitude(once)
        }),
{
    let once = spec_transform(curve, value, elapsed);
    let first = spec_factor(curve, value, elapsed);
    let second = spec_factor(curve, once, elapsed);
    let a = spec_magnitude(value);
    let b = spec_magnitude(once);
    let unit = elapsed * SCALE;
    lemma_factor_bounds(curve, value, elapsed);
    lemma_factor_bounds(curve, once, elapsed);
    lemma_factor_monotonic(curve, value, elapsed, once, elapsed);
    assert(first.num <= second.num) by (nonlinear_arith)
        requires
            first.num * elapsed <= second.num * elapsed,
            0 < elapsed,
    ;
    assert(0 < unit) by (nonlinear_arith)
        requires
            unit == elapsed * SCALE,
            0 < elapsed,
    ;
    // The first result is at least one count larger, so the first factor
    // adds at least one half to the exact product.
    lemma_rounded_nearest(value, first);
    let size = spec_rounded(value, first);
    assert(b <= size);
    assert(2 * (a * (first.num - unit)) >= unit) by (nonlinear_arith)
        requires
            2 * unit * size - unit <= 2 * (a * first.num),
            size >= a + 1,
            0 < unit,
    ;
    // The second factor is no smaller and applies to a larger magnitude.
    assert(2 * (b * second.num) >= 2 * unit * (b + 1) - unit) by (nonlinear_arith)
        requires
            2 * (a * (first.num - unit)) >= unit,
            0 <= a <= b,
            first.num <= second.num,
            0 < unit,
    ;
    lemma_rounded_nearest(once, second);
    let again = spec_rounded(once, second);
    assert(again >= b + 1) by (nonlinear_arith)
        requires
            2 * (b * second.num) < 2 * unit * again + unit,
            2 * (b * second.num) >= 2 * unit * (b + 1) - unit,
            0 < unit,
    ;
}

/// The rounded size is the integer nearest to the exact product.
proof fn lemma_rounded_nearest(value: int, factor: Ratio)
    requires
        factor.wf(),
    ensures
        0 <= spec_rounded(value, factor),
        ({
            let exact = spec_magnitude(value) * factor.num;
            let unit = factor.den * SCALE;
            let size = spec_rounded(value, factor);
            2 * unit * size - unit <= 2 * exact < 2 * unit * size + unit
        }),
{
    let exact = spec_magnitude(value) * factor.num;
    let unit = factor.den * SCALE;
    assert(0 <= exact && 0 < unit) by (nonlinear_arith)
        requires
            exact == spec_magnitude(value) * factor.num,
            unit == factor.den * SCALE,
            0 <= spec_magnitude(value),
            0 <= factor.num,
            0 < factor.den,
    ;
    lemma_round_div_nearest(exact, unit);
}

/// The smaller of two factors never gives the larger rounded size.
proof fn lemma_rounded_ordered(value: int, low: Ratio, high: Ratio)
    requires
        low.wf(),
        high.wf(),
        low.le(high),
    ensures
        spec_rounded(value, low) <= spec_rounded(value, high),
{
    let a = spec_magnitude(value);
    assert(0 <= a * low.num && 0 <= a * high.num && 0 < low.den * SCALE && 0 < high.den * SCALE
        && (a * low.num) * (high.den * SCALE) <= (a * high.num) * (low.den * SCALE))
        by (nonlinear_arith)
        requires
            0 <= a,
            low.wf(),
            high.wf(),
            low.num * high.den <= high.num * low.den,
    ;
    lemma_round_div_monotonic(a * low.num, low.den * SCALE, a * high.num, high.den * SCALE);
}

} // verus!
