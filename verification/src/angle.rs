//! Angles in thousandths of a degree, with a sine and a cosine in
//! thousandths, and the points of the horizontal plane that an angle and a
//! distance give.
//!
//! The two are Bhaskara's rational approximation, which needs no more than
//! integer arithmetic. It gives the true sine at zero, thirty and ninety
//! degrees, and is never above one in size.

use vstd::prelude::*;
use vstd::arithmetic::div_mod::lemma_fundamental_div_mod;
use crate::fixed::{
    ceil_sqrt, floor_div, lemma_ceil_sqrt, lemma_scaled_exact, saturate_to_coordinate, scale,
    scaled, SCALE,
};
use crate::vector::{saturated, Vec3};

verus! {

/// A full turn: three hundred and sixty degrees.
pub const FULL_TURN: i64 = 360_000;

/// Half a turn.
pub const HALF_TURN: i64 = 180_000;

/// A quarter of a turn.
pub const QUARTER_TURN: i64 = 90_000;

/// The sine of an angle of the first half turn: with `p` for the angle times
/// what it lacks of half a turn, in square degrees, it is `4 p / (40500 - p)`.
pub open spec fn arch(angle: int) -> int {
    4 * SCALE * (angle * (HALF_TURN - angle)) / (40_500_000_000 - angle * (HALF_TURN - angle))
}

/// The sine of an angle. Angles that differ by full turns have the same
/// sine, and the second half turn mirrors the first below zero.
pub open spec fn sine(angle: int) -> int {
    let turned = angle % (FULL_TURN as int);
    if turned <= HALF_TURN {
        arch(turned)
    } else {
        -arch(turned - HALF_TURN)
    }
}

/// The cosine of an angle: the sine a quarter turn further on.
pub open spec fn cosine(angle: int) -> int {
    sine(angle + QUARTER_TURN)
}

/// Over the first half turn the sine runs between zero and one.
pub proof fn lemma_arch_in_unit_interval(angle: int)
    requires
        0 <= angle <= HALF_TURN,
    ensures
        0 <= angle * (HALF_TURN - angle) <= 8_100_000_000,
        0 <= arch(angle) <= SCALE,
{
    let product = angle * (180_000 - angle);
    assert(angle * (HALF_TURN - angle) == product);
    assert(0 <= product <= 8_100_000_000) by (nonlinear_arith)
        requires
            0 <= angle <= 180_000,
            product == angle * (180_000 - angle),
    ;
    let above = 4000 * product;
    let below = 40_500_000_000 - product;
    assert(4 * SCALE * product == above);
    lemma_fundamental_div_mod(above, below);
    assert(0 <= above / below <= 1000) by (nonlinear_arith)
        requires
            above == below * (above / below) + above % below,
            0 <= above % below < below,
            0 <= above <= 1000 * below,
            below > 0,
    ;
}

/// Sine and cosine are never above one in size.
pub proof fn lemma_sine_in_unit_interval(angle: int)
    ensures
        -SCALE <= sine(angle) <= SCALE,
        -SCALE <= cosine(angle) <= SCALE,
{
    let turned = angle % 360_000;
    if turned <= 180_000 {
        lemma_arch_in_unit_interval(turned);
    } else {
        lemma_arch_in_unit_interval(turned - 180_000);
    }
    let further = (angle + 90_000) % 360_000;
    if further <= 180_000 {
        lemma_arch_in_unit_interval(further);
    } else {
        lemma_arch_in_unit_interval(further - 180_000);
    }
}

/// The sine of an angle of the first half turn.
fn arch_of(angle: i64) -> (value: i64)
    requires
        0 <= angle <= HALF_TURN,
    ensures
        value == arch(angle as int),
        0 <= value <= SCALE,
{
    proof {
        lemma_arch_in_unit_interval(angle as int);
        assert(angle * (HALF_TURN - angle) == angle * (180_000 - angle));
    }
    let product: i64 = angle * (180_000 - angle);
    (4000 * product) / (40_500_000_000 - product)
}

/// The sine of an angle, in thousandths; the angle is in thousandths of a
/// degree and may be any number of turns.
pub fn sin(angle: i32) -> (value: i64)
    ensures
        value == sine(angle as int),
        -SCALE <= value <= SCALE,
{
    let turns: i128 = floor_div(angle as i128, 360_000);
    let turned: i64 = (angle as i128 - 360_000 * turns) as i64;
    assert(turned == angle as int % 360_000);
    if turned <= 180_000 {
        arch_of(turned)
    } else {
        -arch_of(turned - 180_000)
    }
}

/// The cosine of an angle, in thousandths; the angle is in thousandths of a
/// degree and may be any number of turns.
pub fn cos(angle: i32) -> (value: i64)
    ensures
        value == cosine(angle as int),
        -SCALE <= value <= SCALE,
{
    let further: i128 = angle as i128 + 90_000;
    let turns: i128 = floor_div(further, 360_000);
    let turned: i64 = (further - 360_000 * turns) as i64;
    assert(turned == (angle + 90_000) % 360_000);
    if turned <= 180_000 {
        arch_of(turned)
    } else {
        -arch_of(turned - 180_000)
    }
}

/// The point of the horizontal plane at the given angle and distance from
/// zero: the distance times the cosine along `x` and times the sine along
/// `z`, and never farther from zero than the distance. A distance below zero
/// counts as zero.
pub open spec fn polar(angle: int, radius: int) -> Vec3 {
    saturated(scaled(radius, cosine(angle), SCALE as int), 0, scaled(radius, sine(angle), SCALE as int))
        .spec_clamp_length_max(radius)
}

/// `offset` is an aim offset for the given spread: the point at some angle
/// of the full turn and at some distance from zero up to the spread.
pub open spec fn is_aim_offset(offset: Vec3, spread: int) -> bool {
    exists|angle: int, radius: int|
        0 <= angle < FULL_TURN && 0 <= radius && (radius <= spread || radius == 0) && offset
            == #[trigger] polar(angle, radius)
}

/// A point given by angle and distance lies in the horizontal plane, no
/// farther from zero than the distance.
pub proof fn lemma_polar_in_disc(angle: int, radius: int)
    ensures
        polar(angle, radius).y == 0,
        radius >= 0 ==> polar(angle, radius).len_sq() <= radius * radius,
        radius < 0 ==> polar(angle, radius) == (Vec3 { x: 0, y: 0, z: 0 }),
{
    let origin = Vec3 { x: 0, y: 0, z: 0 };
    let raw = saturated(
        scaled(radius, cosine(angle), SCALE as int),
        0,
        scaled(radius, sine(angle), SCALE as int),
    );
    let most = if radius > 0 {
        radius
    } else {
        0
    };
    crate::vector::lemma_clamp_length_max(raw, radius);
    if raw.len_sq() > most * most {
        let distance = ceil_sqrt(origin.dist_sq(raw));
        crate::vector::lemma_distance_zero(origin, raw);
        assert(origin.dist_sq(raw) == raw.len_sq()) by (nonlinear_arith)
            requires
                origin.x == 0,
                origin.y == 0,
                origin.z == 0,
        ;
        assert(most * most >= 0) by (nonlinear_arith);
        crate::vector::lemma_len_sq_zero(raw);
        lemma_ceil_sqrt(origin.dist_sq(raw));
        lemma_scaled_exact(0, most, distance);
        assert(0 * distance == 0 && 0 * most == 0);
    }
}

/// The aim offset at the given angle, in thousandths of a degree, and
/// distance from zero.
pub fn aim_offset(angle: i32, radius: i32) -> (offset: Vec3)
    ensures
        offset == polar(angle as int, radius as int),
{
    let along: i128 = scale(radius as i64, cos(angle), SCALE);
    let across: i128 = scale(radius as i64, sin(angle), SCALE);
    let raw = Vec3 {
        x: saturate_to_coordinate(along),
        y: 0,
        z: saturate_to_coordinate(across),
    };
    raw.clamp_length_max(radius as i64)
}

} // verus!
